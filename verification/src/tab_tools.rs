//! The tab tools: their arguments, the registry changes they make and the
//! JSON they answer with.
use vstd::prelude::*;
use crate::address::{is_local_address, is_local_url};
use crate::json::{object_of, opt_str_json, opt_str_jv, str_json, Json, JsonV};
use crate::network::ostr;
use crate::tabs::{TabEntry, TabError, TabRegistry};
use crate::text::{concat3, decimal};

verus! {

/// The arguments of `list_tabs`.
pub struct ListTabsTool {
    /// The instance whose tabs are listed; the default one when absent.
    pub instance_id: Option<String>,
}

/// The arguments of `open_tab`.
pub struct OpenTabTool {
    /// The instance that opens the tab; the default one when absent.
    pub instance_id: Option<String>,
    /// The URL to open; `about:blank` when absent.
    pub url: Option<String>,
    /// A label that no other tab of the instance may carry.
    pub label: Option<String>,
}

/// The arguments of `close_tab`.
pub struct CloseTabTool {
    /// The instance that owns the tab; the default one when absent.
    pub instance_id: Option<String>,
    /// The id of the tab to close.
    pub tab_id: String,
}

/// The arguments of `switch_tab`.
pub struct SwitchTabTool {
    /// The instance that owns the tab; the default one when absent.
    pub instance_id: Option<String>,
    /// The id of the tab to make active.
    pub tab_id: String,
    /// Whether to bring the tab to the front in the browser; yes when absent.
    pub activate: Option<bool>,
}

/// The refusal of a URL in local-only mode.
pub open spec fn blocked_navigation_text(url: Seq<char>) -> Seq<char> {
    "Navigation to '"@ + url + "' is blocked by local-only restrictions."@
}

impl OpenTabTool {
    /// The URL the tab opens.
    pub open spec fn url_of(&self) -> Seq<char> {
        match self.url {
            Some(u) => u@,
            None => "about:blank"@,
        }
    }

    /// The URL to open, refused in local-only mode when it is not local.
    pub fn checked_url(&self, local_only: bool) -> (r: Result<String, String>)
        ensures
            r is Ok <==> !(local_only && !is_local_url(self.url_of())),
            match r {
                Ok(u) => u@ == self.url_of(),
                Err(e) => e@ == blocked_navigation_text(self.url_of()),
            },
    {
        let url = match &self.url {
            Some(u) => u.clone(),
            None => "about:blank".to_owned(),
        };
        if local_only && !is_local_address(url.as_str()) {
            return Err(concat3("Navigation to '", url.as_str(), "' is blocked by local-only restrictions."));
        }
        Ok(url)
    }

    /// Whether registering a tab opened now would be refused, checked before
    /// the tab is opened so that a refused tab is never created: refused when
    /// the registry is full or another tab already carries the label, with
    /// the texts registering gives.
    pub fn admission<T>(&self, reg: &TabRegistry<T>) -> (r: Result<(), String>)
        requires
            reg.wf(),
        ensures
            r is Ok <==> reg.tab_map().len() < reg.max_tabs()
                && !(self.label is Some && crate::tabs::label_taken(reg.tab_map(), self.label->0@)),
            match r {
                Ok(()) => true,
                Err(e) => e@ == "Failed to register tab in registry: "@ + (
                    if reg.tab_map().len() >= reg.max_tabs() {
                        "Tab limit reached ("@ + decimal(reg.max_tabs()) + ")"@
                    } else {
                        "Label '"@ + self.label->0@ + "' is already in use by another tab"@
                    }),
            },
    {
        proof { reg.lemma_wf(); }
        let refusal = if reg.len() >= reg.limit() {
            Some(TabError::LimitReached(reg.limit()))
        } else {
            match &self.label {
                Some(l) => if reg.label_in_use(l.as_str()) { Some(TabError::LabelInUse(l.clone())) } else { None },
                None => None,
            }
        };
        match refusal {
            Some(te) => {
                let m = te.message();
                let r = concat3("Failed to register tab in registry: ", m.as_str(), "");
                proof { reveal_strlit(""); assert(r@ =~= "Failed to register tab in registry: "@ + te.text()); }
                Err(r)
            },
            None => Ok(()),
        }
    }

    /// Registers the opened tab under this tool's label.
    pub fn register<T>(&self, reg: &mut TabRegistry<T>, tab: T, target_id: String, url: String) -> (r: Result<String, String>)
        requires
            old(reg).wf(),
            old(reg).next_number() < usize::MAX,
        ensures
            final(reg).wf(),
            r is Ok <==> old(reg).tab_map().len() < old(reg).max_tabs()
                && !(self.label is Some && crate::tabs::label_taken(old(reg).tab_map(), self.label->0@)),
            match r {
                Ok(id) => final(reg).tab_map() == old(reg).tab_map().insert(id@, (TabEntry { tab, target_id, label: self.label, url }))
                    && !old(reg).tab_map().contains_key(id@),
                Err(e) => *final(reg) == *old(reg) && e@ == "Failed to register tab in registry: "@ + (
                    if old(reg).tab_map().len() >= old(reg).max_tabs() {
                        "Tab limit reached ("@ + decimal(old(reg).max_tabs()) + ")"@
                    } else {
                        "Label '"@ + self.label->0@ + "' is already in use by another tab"@
                    }),
            },
    {
        match reg.register_tab(tab, target_id, self.label.clone(), url) {
            Ok(id) => Ok(id),
            Err(te) => {
                let m = te.message();
                let r = concat3("Failed to register tab in registry: ", m.as_str(), "");
                proof { reveal_strlit(""); assert(r@ =~= "Failed to register tab in registry: "@ + te.text()); }
                Err(r)
            },
        }
    }

    /// The answer: the new tab's id, target, URL and label.
    pub fn opened_report(&self, tab_id: &str, target_id: &str, url: &str) -> (r: Json)
        ensures
            r@ == JsonV::Object(seq![
                ("tab_id"@, JsonV::Str(tab_id@)),
                ("target_id"@, JsonV::Str(target_id@)),
                ("url"@, JsonV::Str(url@)),
                ("label"@, opt_str_jv(ostr(self.label))),
            ]),
    {
        let mut m: Vec<(String, Json)> = Vec::new();
        m.push(("tab_id".to_owned(), str_json(tab_id)));
        m.push(("target_id".to_owned(), str_json(target_id)));
        m.push(("url".to_owned(), str_json(url)));
        m.push(("label".to_owned(), opt_str_json(&self.label)));
        let ghost e = seq![
            ("tab_id"@, JsonV::Str(tab_id@)),
            ("target_id"@, JsonV::Str(target_id@)),
            ("url"@, JsonV::Str(url@)),
            ("label"@, opt_str_jv(ostr(self.label))),
        ];
        object_of(m, Ghost(e))
    }
}

impl CloseTabTool {
    /// Removes the tab from the registry, before the browser is asked to
    /// close it.
    pub fn close<T>(&self, reg: &mut TabRegistry<T>) -> (r: Result<TabEntry<T>, String>)
        requires
            old(reg).wf(),
        ensures
            final(reg).wf(),
            final(reg).tab_map() == old(reg).tab_map().remove(self.tab_id@),
            r is Ok <==> old(reg).tab_map().contains_key(self.tab_id@),
            match r {
                Ok(e) => e == old(reg).tab_map()[self.tab_id@],
                Err(msg) => msg@ == "Tab ID '"@ + self.tab_id@ + "' not found"@ && final(reg).active() == old(reg).active(),
            },
    {
        match reg.remove_tab(self.tab_id.as_str()) {
            Some(e) => Ok(e),
            None => Err(concat3("Tab ID '", self.tab_id.as_str(), "' not found")),
        }
    }

    /// The answer: the closed id and the id that is now active.
    pub fn closed_report(&self, active: &Option<String>) -> (r: Json)
        ensures
            r@ == JsonV::Object(seq![
                ("closed_tab_id"@, JsonV::Str(self.tab_id@)),
                ("active_tab_id"@, opt_str_jv(ostr(*active))),
            ]),
    {
        let mut m: Vec<(String, Json)> = Vec::new();
        m.push(("closed_tab_id".to_owned(), str_json(self.tab_id.as_str())));
        m.push(("active_tab_id".to_owned(), opt_str_json(active)));
        let ghost e = seq![
            ("closed_tab_id"@, JsonV::Str(self.tab_id@)),
            ("active_tab_id"@, opt_str_jv(ostr(*active))),
        ];
        object_of(m, Ghost(e))
    }
}

impl SwitchTabTool {
    /// Whether the tab is brought to the front.
    pub open spec fn activates(&self) -> bool {
        match self.activate {
            Some(b) => b,
            None => true,
        }
    }

    /// Makes the tab active; returns whether it is also brought to the front.
    pub fn switch<T>(&self, reg: &mut TabRegistry<T>) -> (r: Result<bool, String>)
        requires
            old(reg).wf(),
        ensures
            final(reg).wf(),
            final(reg).tab_map() == old(reg).tab_map(),
            r is Ok <==> old(reg).tab_map().contains_key(self.tab_id@),
            match r {
                Ok(b) => b == self.activates() && final(reg).active() == Some(self.tab_id@),
                Err(msg) => msg@ == "Failed to switch tab: "@ + "Tab with ID '"@ + self.tab_id@ + "' not found"@
                    && *final(reg) == *old(reg),
            },
    {
        match reg.switch_tab(self.tab_id.as_str()) {
            Ok(()) => Ok(match self.activate {
                Some(b) => b,
                None => true,
            }),
            Err(te) => {
                let m = te.message();
                let r = concat3("Failed to switch tab: ", m.as_str(), "");
                proof { reveal_strlit(""); assert(r@ =~= "Failed to switch tab: "@ + "Tab with ID '"@ + self.tab_id@ + "' not found"@); }
                Err(r)
            },
        }
    }

    /// The answer: the active id and whether the tab was brought forward.
    pub fn switched_report(&self, activated: bool) -> (r: Json)
        ensures
            r@ == JsonV::Object(seq![
                ("active_tab_id"@, JsonV::Str(self.tab_id@)),
                ("activated_in_browser"@, JsonV::Bool(activated)),
            ]),
    {
        let mut m: Vec<(String, Json)> = Vec::new();
        m.push(("active_tab_id".to_owned(), str_json(self.tab_id.as_str())));
        m.push(("activated_in_browser".to_owned(), Json::Bool(activated)));
        let ghost e = seq![
            ("active_tab_id"@, JsonV::Str(self.tab_id@)),
            ("activated_in_browser"@, JsonV::Bool(activated)),
        ];
        object_of(m, Ghost(e))
    }
}

} // verus!
