//! Events of domains without a dedicated cache, kept up to a bound, and the
//! `get_custom_events` and `send_cdp_command` tools.
use vstd::prelude::*;
use crate::address::{is_local_address, is_local_url};
use crate::json::{array_of, json_get, json_pretty_text, json_str, object_of, parse_json, parsed_json, render_pretty, str_json, Json, JsonV};
use crate::network::{json_str_of, ostr};
use crate::text::{concat3, decimal, str_eq, trim, trimmed, u64_to_decimal};

verus! {

/// How many custom events the cache keeps; the oldest goes first.
pub const MAX_CUSTOM_EVENTS: usize = 1000;

/// An event of a domain the server listens to on request.
pub struct CustomEvent {
    pub method: String,
    pub params: Json,
    pub timestamp: String,
}

/// The model of an event.
pub struct CustomEventV {
    pub method: Seq<char>,
    pub params: JsonV,
    pub timestamp: Seq<char>,
}

impl View for CustomEvent {
    type V = CustomEventV;

    open spec fn view(&self) -> CustomEventV {
        CustomEventV { method: self.method@, params: self.params@, timestamp: self.timestamp@ }
    }
}

impl CustomEvent {
    /// A copy of the event.
    pub fn duplicate(&self) -> (r: CustomEvent)
        ensures
            r@ == self@,
    {
        CustomEvent { method: self.method.clone(), params: self.params.duplicate(), timestamp: self.timestamp.clone() }
    }
}

/// The models of a list of events.
pub open spec fn events_view(v: Seq<CustomEvent>) -> Seq<CustomEventV> {
    v.map_values(|e: CustomEvent| e@)
}

/// The custom-event cache and the domains listened to.
pub struct CustomState {
    pub events: Vec<CustomEvent>,
    pub active_domains: Vec<String>,
}

/// The events after one more: the oldest is dropped when the cache is full.
pub open spec fn events_after(evs: Seq<CustomEventV>, ev: CustomEventV) -> Seq<CustomEventV> {
    if evs.len() >= MAX_CUSTOM_EVENTS { evs.drop_first().push(ev) } else { evs.push(ev) }
}

impl CustomState {
    /// The cache holds at most [`MAX_CUSTOM_EVENTS`] events, and no domain twice.
    pub open spec fn wf(&self) -> bool {
        &&& self.events@.len() <= MAX_CUSTOM_EVENTS
        &&& forall|i: int, j: int| 0 <= i < j < self.active_domains@.len() ==> self.active_domains@[i]@ != self.active_domains@[j]@
    }

    /// The domains listened to.
    pub open spec fn domains(&self) -> Set<Seq<char>> {
        Set::new(|d: Seq<char>| exists|i: int| 0 <= i < self.active_domains@.len() && #[trigger] self.active_domains@[i]@ == d)
    }

    /// An empty cache.
    pub fn new() -> (s: CustomState)
        ensures
            s.wf(),
            s.events@.len() == 0,
            s.domains() == Set::<Seq<char>>::empty(),
    {
        let s = CustomState { events: Vec::new(), active_domains: Vec::new() };
        assert(s.domains() =~= Set::<Seq<char>>::empty());
        s
    }

    /// Records an event that carries a method and parameters, stamped with
    /// `timestamp`.
    pub fn process_custom_event(&mut self, method: Option<&str>, params: Option<&Json>, timestamp: String)
        requires
            old(self).wf(),
        ensures
            final(self).wf(),
            final(self).active_domains == old(self).active_domains,
            events_view(final(self).events@) == match (method, params) {
                (Some(m), Some(p)) => events_after(events_view(old(self).events@), CustomEventV { method: m@, params: p@, timestamp: timestamp@ }),
                _ => events_view(old(self).events@),
            },
    {
        if let (Some(m), Some(p)) = (method, params) {
            let ghost before = events_view(self.events@);
            if self.events.len() >= MAX_CUSTOM_EVENTS {
                self.events.remove(0);
                assert(events_view(self.events@) =~= before.drop_first());
            }
            let ghost mid = events_view(self.events@);
            let ev = CustomEvent { method: m.to_owned(), params: p.duplicate(), timestamp };
            self.events.push(ev);
            assert(events_view(self.events@) =~= mid.push(self.events@.last()@));
        }
    }

    /// Marks a domain as listened to; `true` when it was not yet, and a
    /// listener must be started for it.
    pub fn register_domain(&mut self, domain: &str) -> (added: bool)
        requires
            old(self).wf(),
        ensures
            final(self).wf(),
            final(self).events == old(self).events,
            added == !old(self).domains().contains(domain@),
            final(self).domains() == old(self).domains().insert(domain@),
    {
        let mut i: usize = 0;
        while i < self.active_domains.len()
            invariant
                i <= self.active_domains@.len(),
                self.wf(),
                *self == *old(self),
                forall|j: int| 0 <= j < i ==> self.active_domains@[j]@ != domain@,
            decreases self.active_domains@.len() - i,
        {
            if str_eq(self.active_domains[i].as_str(), domain) {
                assert(self.domains().contains(domain@));
                assert(self.domains().insert(domain@) =~= self.domains());
                return false;
            }
            i = i + 1;
        }
        let ghost before = self.domains();
        self.active_domains.push(domain.to_owned());
        proof {
            assert(!before.contains(domain@));
            assert(self.domains() =~= before.insert(domain@)) by {
                assert forall|d: Seq<char>| self.domains().contains(d) <==> before.insert(domain@).contains(d) by {
                    if self.domains().contains(d) {
                        let k = choose|k: int| 0 <= k < self.active_domains@.len() && #[trigger] self.active_domains@[k]@ == d;
                        if k < self.active_domains@.len() - 1 {
                            assert(before.contains(d));
                        }
                    }
                    if before.contains(d) {
                        let k = choose|k: int| 0 <= k < self.active_domains@.len() - 1 && #[trigger] old(self).active_domains@[k]@ == d;
                        assert(self.active_domains@[k]@ == d);
                    }
                    if d == domain@ {
                        assert(self.active_domains@[self.active_domains@.len() - 1]@ == d);
                    }
                }
            }
        }
        true
    }
}

/// The default number of events `get_custom_events` returns.
pub fn default_limit() -> (r: u32)
    ensures
        r == 100,
{
    100
}

/// The arguments of `get_custom_events`.
pub struct GetCustomEventsTool {
    pub filter_method: Option<String>,
    /// At most this many events are returned; 0 means no limit.
    pub limit: u32,
}

/// The events that pass a method filter, in order.
pub open spec fn filtered_events(evs: Seq<CustomEventV>, filter: Option<Seq<char>>) -> Seq<CustomEventV> {
    match filter {
        Some(f) => evs.filter(|e: CustomEventV| e.method == f),
        None => evs,
    }
}

/// The events `get_custom_events` returns: those passing the filter, the
/// oldest first, at most `limit` of them unless `limit` is 0.
pub open spec fn selected_events(evs: Seq<CustomEventV>, filter: Option<Seq<char>>, limit: u32) -> Seq<CustomEventV> {
    let f = filtered_events(evs, filter);
    if limit == 0 || f.len() <= limit { f } else { f.take(limit as int) }
}

impl GetCustomEventsTool {
    /// The events to return.
    pub fn select(&self, events: &Vec<CustomEvent>) -> (r: Vec<CustomEvent>)
        ensures
            events_view(r@) == selected_events(
                events_view(events@),
                ostr(self.filter_method),
                self.limit,
            ),
    {
        let ghost ev = events_view(events@);
        let ghost fm = ostr(self.filter_method);
        let ghost pred = |e: CustomEventV| e.method == fm->0;
        let mut all: Vec<CustomEvent> = Vec::new();
        let mut i: usize = 0;
        while i < events.len()
            invariant
                i <= events@.len(),
                ev == events_view(events@),
                fm == ostr(self.filter_method),
                pred == (|e: CustomEventV| e.method == fm->0),
                events_view(all@) == filtered_events(ev.take(i as int), fm),
            decreases events@.len() - i,
        {
            let ghost prev = ev.take(i as int);
            let ghost next = ev.take(i + 1);
            assert(next =~= prev.push(ev[i as int]));
            proof {
                if fm is Some {
                    prev.lemma_filter_push(ev[i as int], pred);
                    assert(filtered_events(next, fm) == next.filter(pred));
                }
            }
            let keep = match &self.filter_method {
                Some(f) => str_eq(events[i].method.as_str(), f.as_str()),
                None => true,
            };
            if keep {
                let ghost before = events_view(all@);
                all.push(events[i].duplicate());
                assert(events_view(all@) =~= before.push(ev[i as int]));
            }
            i = i + 1;
        }
        assert(ev.take(events@.len() as int) =~= ev);
        if self.limit == 0 || all.len() <= self.limit as usize {
            all
        } else {
            let ghost before = events_view(all@);
            all.truncate(self.limit as usize);
            assert(events_view(all@) =~= before.take(self.limit as int));
            all
        }
    }
}

/// The JSON of an event: its method, parameters and timestamp.
pub open spec fn event_json(e: CustomEventV) -> JsonV {
    JsonV::Object(seq![("method"@, JsonV::Str(e.method)), ("params"@, e.params), ("timestamp"@, JsonV::Str(e.timestamp))])
}

impl GetCustomEventsTool {
    /// The answer: how many events were found, then the events printed
    /// indented.
    pub fn report(events: &Vec<CustomEvent>) -> (r: String)
        ensures
            r@ == "Found "@ + decimal(events@.len() as nat) + " custom events. Captured events: "@
                + json_pretty_text(JsonV::Array(events_view(events@).map_values(|e: CustomEventV| event_json(e)))),
    {
        let mut items: Vec<Json> = Vec::new();
        let mut i: usize = 0;
        while i < events.len()
            invariant
                i <= events@.len(),
                items@.len() == i,
                forall|j: int| 0 <= j < i ==> #[trigger] items@[j]@ == event_json(events@[j]@),
            decreases events@.len() - i,
        {
            let e = &events[i];
            let mut m: Vec<(String, Json)> = Vec::new();
            m.push(("method".to_owned(), str_json(e.method.as_str())));
            m.push(("params".to_owned(), e.params.duplicate()));
            m.push(("timestamp".to_owned(), str_json(e.timestamp.as_str())));
            let ghost me = seq![("method"@, JsonV::Str(e.method@)), ("params"@, e.params@), ("timestamp"@, JsonV::Str(e.timestamp@))];
            items.push(object_of(m, Ghost(me)));
            i = i + 1;
        }
        let ghost expected = events_view(events@).map_values(|e: CustomEventV| event_json(e));
        let arr = array_of(items, Ghost(expected));
        let text = render_pretty(&arr);
        let n = u64_to_decimal(events.len() as u64);
        let head = concat3("Found ", n.as_str(), " custom events. Captured events: ");
        let r = concat3(head.as_str(), text.as_str(), "");
        proof { reveal_strlit(""); }
        r
    }
}

/// The arguments of `send_cdp_command`.
pub struct SendCdpCommandTool {
    pub method: String,
    pub params: Option<String>,
}

/// Why a raw command is refused before it is sent.
pub enum CdpCommandError {
    /// The parameter text is not JSON; the parser's message.
    InvalidParams(String),
    /// Local-only mode refuses a navigation to this non-local URL.
    BlockedNavigation(String),
}

impl CdpCommandError {
    /// The text of the refusal.
    pub open spec fn text(&self) -> Seq<char> {
        match self {
            CdpCommandError::InvalidParams(e) => "Invalid JSON in params: "@ + e@,
            CdpCommandError::BlockedNavigation(u) => "Navigation to '"@ + u@ + "' via raw CDP command is blocked. This MCP server is running with the 'local' argument, which restricts navigation to local addresses only (localhost, 127.0.0.1, 192.168.x.x, or *.local). To allow navigation to external addresses, restart the MCP server without the 'local' argument."@,
        }
    }

    /// The refusal as a message.
    pub fn message(&self) -> (r: String)
        ensures
            r@ == self.text(),
    {
        match self {
            CdpCommandError::InvalidParams(e) => {
                let r = concat3("Invalid JSON in params: ", e.as_str(), "");
                proof { reveal_strlit(""); assert(r@ =~= self.text()); }
                r
            },
            CdpCommandError::BlockedNavigation(u) => concat3("Navigation to '", u.as_str(), "' via raw CDP command is blocked. This MCP server is running with the 'local' argument, which restricts navigation to local addresses only (localhost, 127.0.0.1, 192.168.x.x, or *.local). To allow navigation to external addresses, restart the MCP server without the 'local' argument."),
        }
    }
}

/// The text before the first '.', or the whole text.
pub open spec fn domain_of(method: Seq<char>) -> Seq<char> {
    if exists|i: int| 0 <= i < method.len() && method[i] == '.' {
        method.take(choose|i: int| 0 <= i < method.len() && method[i] == '.' && forall|j: int| 0 <= j < i ==> method[j] != '.')
    } else {
        method
    }
}

impl SendCdpCommandTool {
    /// The parameters to send: the parsed text when it is not blank, an
    /// empty object otherwise.
    pub open spec fn params_of(&self) -> Result<JsonV, Seq<char>> {
        match self.params {
            Some(s) => if trimmed(s@).len() > 0 { parsed_json(s@) } else { Ok(JsonV::Object(Seq::empty())) },
            None => Ok(JsonV::Object(Seq::empty())),
        }
    }

    /// Checks a raw command before it is sent: its parameters must parse, and
    /// in local-only mode a `Page.navigate` must target a local URL.  Returns
    /// the parameters and the domain whose events are then collected.
    pub fn prepare(&self, local_only: bool) -> (r: Result<(Json, String), CdpCommandError>)
        ensures
            match r {
                Ok((p, d)) => self.params_of() == Ok::<JsonV, Seq<char>>(p@)
                    && !(local_only && self.method@ == "Page.navigate"@ && match json_str_of(p@, "url"@) { Some(u) => !is_local_url(u), None => false })
                    && d@ == domain_of(self.method@),
                Err(CdpCommandError::InvalidParams(e)) => self.params_of() == Err::<JsonV, Seq<char>>(e@),
                Err(CdpCommandError::BlockedNavigation(u)) => local_only && self.method@ == "Page.navigate"@
                    && self.params_of() is Ok
                    && json_str_of(self.params_of()->Ok_0, "url"@) == Some(u@) && !is_local_url(u@),
            },
    {
        let parsed = match &self.params {
            Some(s) => {
                let t = trim(s.as_str());
                if t.is_empty() {
                    Json::empty_object()
                } else {
                    match parse_json(s.as_str()) {
                        Ok(j) => j,
                        Err(e) => return Err(CdpCommandError::InvalidParams(e)),
                    }
                }
            },
            None => Json::empty_object(),
        };
        if local_only && str_eq(self.method.as_str(), "Page.navigate") {
            match parsed.get("url") {
                Some(u) => match u.as_str() {
                    Some(url) => if !is_local_address(url) {
                        return Err(CdpCommandError::BlockedNavigation(url.to_owned()));
                    },
                    None => {},
                },
                None => {},
            }
        }
        let d = domain_before_dot(self.method.as_str());
        Ok((parsed, d))
    }
}

/// The text before the first '.', or the whole text.
pub fn domain_before_dot(method: &str) -> (r: String)
    ensures
        r@ == domain_of(method@),
{
    let c = crate::text::chars_of(method);
    let mut out = String::new();
    let mut i: usize = 0;
    while i < c.len()
        invariant
            c@ == method@,
            i <= c@.len(),
            out@ == method@.take(i as int),
            forall|j: int| 0 <= j < i ==> method@[j] != '.',
        decreases c@.len() - i,
    {
        if c[i] == '.' {
            proof {
                let k = choose|k: int| 0 <= k < method@.len() && method@[k] == '.' && forall|j: int| 0 <= j < k ==> method@[j] != '.';
                if k < i {
                } else if k > i {
                    assert(method@[i as int] == '.');
                }
                assert(k == i);
            }
            return out;
        }
        crate::text::push_char(&mut out, c[i]);
        assert(out@ =~= method@.take(i + 1));
        i = i + 1;
    }
    assert(method@.take(c@.len() as int) =~= method@);
    out
}


/// The cache never holds more than its bound, and the newest event is
/// always kept, last; when the cache is full the oldest event makes room.
pub proof fn law_custom_cache_is_bounded(evs: Seq<CustomEventV>, ev: CustomEventV)
    requires
        evs.len() <= MAX_CUSTOM_EVENTS,
    ensures
        events_after(evs, ev).len() <= MAX_CUSTOM_EVENTS,
        events_after(evs, ev).last() == ev,
        evs.len() < MAX_CUSTOM_EVENTS ==> events_after(evs, ev).drop_last() == evs,
        evs.len() == MAX_CUSTOM_EVENTS ==> events_after(evs, ev).drop_last() == evs.drop_first(),
{
    if evs.len() < MAX_CUSTOM_EVENTS {
        assert(evs.push(ev).drop_last() =~= evs);
    } else {
        assert(evs.drop_first().push(ev).drop_last() =~= evs.drop_first());
    }
}

} // verus!
