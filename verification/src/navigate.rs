//! Navigation: the local-only rule, the cookie-import checks and the
//! confirmation a relaunch needs before it closes the instance's tabs.
use vstd::prelude::*;
use crate::address::{is_local_address, is_local_url};
use crate::console::{join, join_texts};
use crate::cookie_seed::{import_disabled_text, import_redundant_text, prepare_seed_report, SeedRequest};
use crate::json::{object_of, str_json, Json, JsonV};
use crate::proxy_auth::{command_view, CdpCommand};
use crate::tabs::{TabEntry, TabRegistry};
use crate::text::{concat3, decimal, str_eq, u64_to_decimal};

verus! {

/// The arguments of `navigate`.
pub struct NavigateTool {
    pub instance_id: Option<String>,
    pub tab_id: Option<String>,
    pub url: String,
    /// Import the user's own cookies first.
    pub copy_cookies: Option<bool>,
    /// The profile to import from.
    pub source_profile: Option<String>,
    /// The user agreed to relaunch a running instance.
    pub confirm_restart: Option<bool>,
}

/// The refusal of a non-local URL in local-only mode.
pub open spec fn local_only_text(url: Seq<char>) -> Seq<char> {
    "Navigation to '"@ + url + "' is blocked. This MCP server is running with the 'local' argument, which restricts navigation to local addresses only (localhost, 127.0.0.1, 192.168.x.x, or *.local). To allow navigation to external addresses, restart the MCP server without the 'local' argument."@
}

/// One tab as the relaunch warning lists it: id, label in quotes, whether
/// it is active, and URL.
pub open spec fn tab_line<T>(id: Seq<char>, e: TabEntry<T>, active: Option<Seq<char>>) -> Seq<char> {
    "  - "@ + id
        + (match e.label { Some(l) => " \""@ + l@ + "\""@, None => Seq::empty() })
        + (if active == Some(id) { " (active)"@ } else { Seq::empty() })
        + ": "@ + e.url@
}

/// The lines of all registered tabs, in registration order.
pub open spec fn tab_lines<T>(reg: TabRegistry<T>) -> Seq<Seq<char>> {
    Seq::new(reg.order().len(), |i: int| tab_line(reg.order()[i], reg.tab_map()[reg.order()[i]], reg.active()))
}

/// The warning that stops a cookie import into a running instance until the
/// user confirms the relaunch.
pub open spec fn relaunch_warning_text(instance: Seq<char>, count: nat, lines: Seq<Seq<char>>) -> Seq<char> {
    let tab_info = if count > 0 {
        "its "@ + decimal(count) + " open tab(s), discarding their state (unsaved form input, breakpoints, and captured logs):\n"@ + join(lines, "\n"@)
    } else {
        "any open tabs"@
    };
    "Cookie import requires relaunching instance '"@ + instance
        + "' with a seeded profile: a running browser cannot pick up cookies from disk.\n\nThis will CLOSE the instance and "@
        + tab_info
        + "\n\nTell the user exactly which tabs will be closed and ask them to confirm. Only if they agree, call navigate again with the same arguments plus `confirm_restart: true`."@
}

impl NavigateTool {
    /// Whether cookies are to be imported.
    pub open spec fn wants_cookies(&self) -> bool {
        self.copy_cookies == Some(true)
    }

    /// What is settled before anything is done: a non-local URL is refused in
    /// local-only mode; a cookie import must be allowed and must not be
    /// redundant.  Returns the import to carry out, if any.
    pub fn check(&self, local_only: bool, allow_cookie_import: bool, user_profile: bool) -> (r: Result<Option<SeedRequest>, String>)
        ensures
            local_only && !is_local_url(self.url@) ==> (r matches Err(e) && e@ == local_only_text(self.url@)),
            !(local_only && !is_local_url(self.url@)) ==> {
                &&& !self.wants_cookies() ==> (r matches Ok(None))
                &&& self.wants_cookies() && !allow_cookie_import ==> (r matches Err(e) && e@ == import_disabled_text())
                &&& self.wants_cookies() && allow_cookie_import && user_profile ==> (r matches Err(e) && e@ == import_redundant_text())
                &&& self.wants_cookies() && allow_cookie_import && !user_profile ==> (r matches Ok(Some(s))
                    && match (s.source_profile, self.source_profile) {
                        (Some(a), Some(b)) => a@ == b@,
                        (None, None) => true,
                        _ => false,
                    })
            },
    {
        if local_only && !is_local_address(self.url.as_str()) {
            let head = concat3("Navigation to '", self.url.as_str(), "' is blocked. This MCP server is running with the 'local' argument, which restricts navigation to local addresses only (localhost, 127.0.0.1, 192.168.x.x, or *.local). To allow navigation to external addresses, restart the MCP server without the 'local' argument.");
            return Err(head);
        }
        let wants = match self.copy_cookies {
            Some(b) => b,
            None => false,
        };
        let profile = match &self.source_profile {
            Some(p) => Some(p.as_str()),
            None => None,
        };
        prepare_seed_report(wants, profile, allow_cookie_import, user_profile)
    }

    /// Before a running instance is relaunched with imported cookies: the
    /// warning listing the tabs that will close, unless the user already
    /// confirmed.
    pub fn relaunch_warning<T>(&self, reg: &TabRegistry<T>) -> (r: Option<String>)
        requires
            reg.wf(),
        ensures
            self.confirm_restart == Some(true) ==> r is None,
            self.confirm_restart != Some(true) ==> (r matches Some(m) && m@ == relaunch_warning_text(
                match self.instance_id { Some(i) => i@, None => "default"@ },
                reg.tab_map().len(),
                tab_lines(*reg),
            )),
    {
        match self.confirm_restart {
            Some(true) => return None,
            _ => {},
        }
        let instance = match &self.instance_id {
            Some(i) => i.clone(),
            None => "default".to_owned(),
        };
        let count = reg.len();
        proof { reg.lemma_wf(); }
        let mut lines: Vec<String> = Vec::new();
        let mut i: usize = 0;
        while i < count
            invariant
                reg.wf(),
                count == reg.order().len(),
                i <= count,
                lines@.len() == i,
                forall|j: int| 0 <= j < i ==> #[trigger] lines@[j]@ == tab_lines(*reg)[j],
            decreases count - i,
        {
            let (id, e) = reg.entry_at(i);
            let mut line = concat3("  - ", id.as_str(), "");
            match &e.label {
                Some(l) => {
                    let q = concat3(" \"", l.as_str(), "\"");
                    line.append(q.as_str());
                },
                None => {},
            }
            let is_active = match reg.active_tab_id() {
                Some(a) => str_eq(a.as_str(), id.as_str()),
                None => false,
            };
            if is_active {
                line.append(" (active)");
            }
            line.append(": ");
            line.append(e.url.as_str());
            proof {
                reveal_strlit("");
                assert(line@ =~= tab_line(id@, *e, reg.active()));
            }
            lines.push(line);
            i = i + 1;
        }
        proof {
            assert(lines@.map_values(|s: String| s@) =~= tab_lines(*reg));
        }
        let tab_info = if count > 0 {
            let n = u64_to_decimal(count as u64);
            let list = join_texts(&lines, "\n");
            let head = concat3("its ", n.as_str(), " open tab(s), discarding their state (unsaved form input, breakpoints, and captured logs):\n");
            concat3(head.as_str(), list.as_str(), "")
        } else {
            "any open tabs".to_owned()
        };
        let head = concat3("Cookie import requires relaunching instance '", instance.as_str(), "' with a seeded profile: a running browser cannot pick up cookies from disk.\n\nThis will CLOSE the instance and ");
        let msg = concat3(head.as_str(), tab_info.as_str(), "\n\nTell the user exactly which tabs will be closed and ask them to confirm. Only if they agree, call navigate again with the same arguments plus `confirm_restart: true`.");
        proof {
            reveal_strlit("");
            assert(msg@ =~= relaunch_warning_text(instance@, reg.tab_map().len(), tab_lines(*reg)));
        }
        Some(msg)
    }

    /// The navigation command.
    pub fn navigate_command(&self) -> (r: CdpCommand)
        ensures
            command_view(Some(r)) == Some(("Page.navigate"@, Some(JsonV::Object(seq![("url"@, JsonV::Str(self.url@))])))),
    {
        let mut m: Vec<(String, Json)> = Vec::new();
        m.push(("url".to_owned(), str_json(self.url.as_str())));
        let ghost e = seq![("url"@, JsonV::Str(self.url@))];
        CdpCommand { method: "Page.navigate".to_owned(), params: Some(object_of(m, Ghost(e))) }
    }
}

} // verus!
