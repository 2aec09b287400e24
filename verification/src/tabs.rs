//! The tabs of one browser instance: a bounded registry that hands out
//! `tab-N` ids, keeps labels unique and always knows which registered tab is
//! active.  The tab handle itself is opaque to the registry.
use vstd::prelude::*;
use crate::address::{is_local_address, is_local_url};
use crate::json::{array_of, get_in, json_get, object_of, opt_get, opt_str, opt_str_json, opt_str_jv, str_in, str_json, Json, JsonV};
use crate::network::ostr;
use crate::strmap::StrMap;
use crate::text::{concat3, decimal, lemma_decimal_injective, starts_with, starts_with_str, str_eq, u64_to_decimal};

verus! {

/// The id of the `n`-th registered tab: `tab-` and the number in decimal.
pub open spec fn tab_key(n: nat) -> Seq<char> {
    seq!['t', 'a', 'b', '-'] + decimal(n)
}

/// Different numbers give different tab ids.
pub proof fn lemma_tab_key_injective(a: nat, b: nat)
    requires
        tab_key(a) == tab_key(b),
    ensures
        a == b,
{
    assert(tab_key(a).subrange(4, tab_key(a).len() as int) =~= decimal(a));
    assert(tab_key(b).subrange(4, tab_key(b).len() as int) =~= decimal(b));
    lemma_decimal_injective(a, b);
}

/// One registered tab.
pub struct TabEntry<T> {
    /// The handle the caller talks to the tab through.
    pub tab: T,
    /// The DevTools target id of the tab.
    pub target_id: String,
    /// The label given when the tab was opened.
    pub label: Option<String>,
    /// The URL the tab was opened with.
    pub url: String,
}

/// The entry carries the label `lbl`.
pub open spec fn has_label(label: Option<String>, lbl: Seq<char>) -> bool {
    match label {
        Some(l) => l@ == lbl,
        None => false,
    }
}

/// Some registered tab carries the label `lbl`.
pub open spec fn label_taken<T>(m: Map<Seq<char>, TabEntry<T>>, lbl: Seq<char>) -> bool {
    exists|k: Seq<char>| m.contains_key(k) && #[trigger] has_label(m[k].label, lbl)
}

/// No two registered tabs carry the same label.
pub open spec fn labels_unique<T>(m: Map<Seq<char>, TabEntry<T>>) -> bool {
    forall|a: Seq<char>, b: Seq<char>|
        #![trigger m[a], m[b]]
        m.contains_key(a) && m.contains_key(b) && a != b && m[a].label is Some && m[b].label is Some
            ==> m[a].label->0@ != m[b].label->0@
}

/// Why the registry refused a request.
#[derive(Debug)]
pub enum TabError {
    /// The registry already holds its maximum number of tabs.
    LimitReached(usize),
    /// Another tab already carries this label.
    LabelInUse(String),
    /// No tab has this id.
    NotFound(String),
}

impl TabError {
    /// The text of the error.
    pub open spec fn text(&self) -> Seq<char> {
        match self {
            TabError::LimitReached(m) => "Tab limit reached ("@ + decimal(*m as nat) + ")"@,
            TabError::LabelInUse(l) => "Label '"@ + l@ + "' is already in use by another tab"@,
            TabError::NotFound(id) => "Tab with ID '"@ + id@ + "' not found"@,
        }
    }

    /// The error as a message.
    pub fn message(&self) -> (r: String)
        ensures
            r@ == self.text(),
    {
        match self {
            TabError::LimitReached(m) => {
                let n = u64_to_decimal(*m as u64);
                concat3("Tab limit reached (", n.as_str(), ")")
            },
            TabError::LabelInUse(l) => concat3("Label '", l.as_str(), "' is already in use by another tab"),
            TabError::NotFound(id) => concat3("Tab with ID '", id.as_str(), "' not found"),
        }
    }
}

/// The registry of the tabs of one instance.
pub struct TabRegistry<T> {
    tabs: StrMap<TabEntry<T>>,
    active_tab_id: Option<String>,
    max_tabs: usize,
    counter: usize,
}

impl<T> TabRegistry<T> {
    /// The registered tabs by id.
    pub closed spec fn tab_map(self) -> Map<Seq<char>, TabEntry<T>> {
        self.tabs@
    }

    /// The ids in the order the tabs were registered.
    pub closed spec fn order(self) -> Seq<Seq<char>> {
        self.tabs.key_seq()
    }

    /// The id of the active tab.
    pub closed spec fn active(self) -> Option<Seq<char>> {
        match self.active_tab_id {
            Some(a) => Some(a@),
            None => None,
        }
    }

    /// The most tabs the registry holds.
    pub closed spec fn max_tabs(self) -> nat {
        self.max_tabs as nat
    }

    /// The number the next registered tab gets.
    pub closed spec fn next_number(self) -> nat {
        self.counter as nat
    }

    /// The invariant: ids are unique and of the form `tab-N` with `N` below
    /// the next number, there are at most `max_tabs` of them, and exactly
    /// when there is a tab, the active id is one of them.
    pub closed spec fn wf(self) -> bool {
        &&& self.tabs.wf()
        &&& self.tabs.entries().len() <= self.max_tabs
        &&& self.counter >= 1
        &&& forall|k: Seq<char>| #[trigger] self.tabs@.contains_key(k) ==> exists|n: nat| 1 <= n < self.counter && k == tab_key(n)
        &&& match self.active_tab_id {
            Some(a) => self.tabs@.contains_key(a@),
            None => self.tabs.entries().len() == 0,
        }
        &&& labels_unique(self.tabs@)
    }

    /// What the invariant gives the callers.
    pub proof fn lemma_wf(self)
        requires
            self.wf(),
        ensures
            self.tab_map().dom().finite(),
            self.tab_map().len() == self.order().len(),
            self.tab_map().len() <= self.max_tabs(),
            self.next_number() >= 1,
            forall|k: Seq<char>| #[trigger] self.tab_map().contains_key(k) <==> self.order().contains(k),
            forall|k: Seq<char>| #[trigger] self.tab_map().contains_key(k) ==> exists|n: nat| 1 <= n < self.next_number() && k == tab_key(n),
            match self.active() {
                Some(a) => self.tab_map().contains_key(a),
                None => self.tab_map().len() == 0,
            },
            labels_unique(self.tab_map()),
    {
        self.tabs.lemma_wf();
    }

    /// An empty registry that holds at most `max_tabs` tabs.
    pub fn new(max_tabs: usize) -> (r: Self)
        ensures
            r.wf(),
            r.tab_map() == Map::<Seq<char>, TabEntry<T>>::empty(),
            r.order().len() == 0,
            r.active() is None,
            r.max_tabs() == max_tabs,
            r.next_number() == 1,
    {
        let r = TabRegistry { tabs: StrMap::new(), active_tab_id: None, max_tabs, counter: 1 };
        assert(r.order() =~= Seq::<Seq<char>>::empty());
        r
    }

    /// The most tabs the registry holds.
    pub fn limit(&self) -> (n: usize)
        ensures
            n == self.max_tabs(),
    {
        self.max_tabs
    }

    /// Whether another tab can still be numbered.
    pub fn has_fresh_id(&self) -> (b: bool)
        ensures
            b == (self.next_number() < usize::MAX),
    {
        self.counter < usize::MAX
    }

    /// The number of registered tabs.
    pub fn len(&self) -> (n: usize)
        requires
            self.wf(),
        ensures
            n == self.tab_map().len(),
    {
        proof { self.lemma_wf(); }
        self.tabs.len()
    }

    /// The id of the active tab.
    pub fn active_tab_id(&self) -> (r: Option<String>)
        ensures
            match r {
                Some(s) => self.active() == Some(s@),
                None => self.active() is None,
            },
    {
        self.active_tab_id.clone()
    }

    /// The entry registered under an id.
    pub fn get(&self, tab_id: &str) -> (r: Option<&TabEntry<T>>)
        requires
            self.wf(),
        ensures
            match r {
                Some(e) => self.tab_map().contains_key(tab_id@) && *e == self.tab_map()[tab_id@],
                None => !self.tab_map().contains_key(tab_id@),
            },
    {
        self.tabs.get(tab_id)
    }

    /// The id and entry at a position of the registration order.
    pub fn entry_at(&self, i: usize) -> (r: (&String, &TabEntry<T>))
        requires
            self.wf(),
            i < self.order().len(),
        ensures
            r.0@ == self.order()[i as int],
            self.tab_map().contains_key(r.0@),
            *r.1 == self.tab_map()[r.0@],
    {
        proof { self.tabs.lemma_wf(); }
        let r = self.tabs.entry_at(i);
        proof {
            assert(self.order()[i as int] == self.tabs.entries()[i as int].0);
        }
        r
    }

    /// Whether some tab carries the label.
    pub fn label_in_use(&self, lbl: &str) -> (b: bool)
        requires
            self.wf(),
        ensures
            b == label_taken(self.tab_map(), lbl@),
    {
        proof { self.tabs.lemma_wf(); }
        let n = self.tabs.len();
        let mut i: usize = 0;
        while i < n
            invariant
                self.wf(),
                n == self.tabs.entries().len(),
                i <= n,
                forall|j: int| 0 <= j < i ==> !#[trigger] has_label(self.tabs.entries()[j].1.label, lbl@),
            decreases n - i,
        {
            let (_k, e) = self.tabs.entry_at(i);
            match &e.label {
                Some(l) => {
                    if crate::text::str_eq(l.as_str(), lbl) {
                        proof {
                            self.tabs.lemma_wf();
                            let k = self.tabs.entries()[i as int].0;
                            assert(self.tabs.key_seq()[i as int] == k);
                            assert(self.tab_map().contains_key(k));
                            assert(has_label(self.tab_map()[k].label, lbl@));
                        }
                        return true;
                    }
                },
                None => {},
            }
            i = i + 1;
        }
        proof {
            self.tabs.lemma_wf();
            assert forall|k: Seq<char>| self.tab_map().contains_key(k) implies !#[trigger] has_label(self.tab_map()[k].label, lbl@) by {
                assert(self.tabs.key_seq().contains(k));
                let j = choose|j: int| 0 <= j < self.tabs.key_seq().len() && self.tabs.key_seq()[j] == k;
                assert(self.tabs.entries()[j].0 == k);
            }
        }
        false
    }

    /// Registers a tab under the next `tab-N` id.  Refused when the registry
    /// is full, or when another tab already carries the label.  The first tab
    /// registered into an empty registry becomes the active one.
    pub fn register_tab(&mut self, tab: T, target_id: String, label: Option<String>, url: String) -> (r: Result<String, TabError>)
        requires
            old(self).wf(),
            old(self).next_number() < usize::MAX,
        ensures
            final(self).wf(),
            final(self).max_tabs() == old(self).max_tabs(),
            r is Ok <==> old(self).tab_map().len() < old(self).max_tabs()
                && !(label is Some && label_taken(old(self).tab_map(), label->0@)),
            match r {
                Ok(id) => {
                    &&& id@ == tab_key(old(self).next_number())
                    &&& !old(self).tab_map().contains_key(id@)
                    &&& final(self).tab_map() == old(self).tab_map().insert(id@, (TabEntry { tab, target_id, label, url }))
                    &&& final(self).order() == old(self).order().push(id@)
                    &&& final(self).active() == (if old(self).active() is None { Some(id@) } else { old(self).active() })
                    &&& final(self).next_number() == old(self).next_number() + 1
                },
                Err(TabError::LimitReached(m)) => {
                    &&& old(self).tab_map().len() >= old(self).max_tabs()
                    &&& m == old(self).max_tabs()
                    &&& *final(self) == *old(self)
                },
                Err(TabError::LabelInUse(l)) => {
                    &&& old(self).tab_map().len() < old(self).max_tabs()
                    &&& label == Some(l)
                    &&& label_taken(old(self).tab_map(), l@)
                    &&& *final(self) == *old(self)
                },
                Err(TabError::NotFound(_)) => false,
            },
    {
        proof { self.lemma_wf(); }
        if self.tabs.len() >= self.max_tabs {
            return Err(TabError::LimitReached(self.max_tabs));
        }
        match &label {
            Some(l) => {
                if self.label_in_use(l.as_str()) {
                    return Err(TabError::LabelInUse(l.clone()));
                }
            },
            None => {},
        }
        let ghost old_self = *self;
        let num = u64_to_decimal(self.counter as u64);
        let tab_id = concat3("tab-", num.as_str(), "");
        proof {
            reveal_strlit("tab-");
            reveal_strlit("");
            assert(tab_id@ =~= tab_key(self.counter as nat));
            if self.tabs@.contains_key(tab_id@) {
                let n = choose|n: nat| 1 <= n < self.counter && tab_id@ == tab_key(n);
                lemma_tab_key_injective(n, self.counter as nat);
            }
        }
        let ghost entry = TabEntry { tab, target_id, label, url };
        self.counter = self.counter + 1;
        self.tabs.insert(tab_id.clone(), TabEntry { tab, target_id, label, url });
        if self.active_tab_id.is_none() {
            self.active_tab_id = Some(tab_id.clone());
        }
        proof {
            self.tabs.lemma_wf();
            assert forall|k: Seq<char>| #[trigger] self.tabs@.contains_key(k) implies exists|n: nat| 1 <= n < self.counter && k == tab_key(n) by {
                if k != tab_id@ {
                    assert(old_self.tabs@.contains_key(k));
                    let n = choose|n: nat| 1 <= n < old_self.counter && k == tab_key(n);
                    assert(1 <= n < self.counter);
                } else {
                    assert(k == tab_key((self.counter - 1) as nat));
                }
            }
            assert forall|a: Seq<char>, b: Seq<char>|
                #![trigger self.tabs@[a], self.tabs@[b]]
                self.tabs@.contains_key(a) && self.tabs@.contains_key(b) && a != b
                    && self.tabs@[a].label is Some && self.tabs@[b].label is Some
                implies self.tabs@[a].label->0@ != self.tabs@[b].label->0@ by {
                if a == tab_id@ {
                    assert(old_self.tabs@.contains_key(b));
                    if self.tabs@[a].label->0@ == self.tabs@[b].label->0@ {
                        assert(has_label(old_self.tabs@[b].label, entry.label->0@));
                    }
                } else if b == tab_id@ {
                    assert(old_self.tabs@.contains_key(a));
                    if self.tabs@[a].label->0@ == self.tabs@[b].label->0@ {
                        assert(has_label(old_self.tabs@[a].label, entry.label->0@));
                    }
                } else {
                    assert(old_self.tabs@.contains_key(a));
                    assert(old_self.tabs@.contains_key(b));
                }
            }
        }
        Ok(tab_id)
    }

    /// Removes a tab and returns its entry.  When it was the active tab, the
    /// first remaining tab in registration order becomes active, or none when
    /// no tab remains.
    pub fn remove_tab(&mut self, tab_id: &str) -> (r: Option<TabEntry<T>>)
        requires
            old(self).wf(),
        ensures
            final(self).wf(),
            final(self).max_tabs() == old(self).max_tabs(),
            final(self).next_number() == old(self).next_number(),
            final(self).tab_map() == old(self).tab_map().remove(tab_id@),
            match r {
                Some(e) => {
                    &&& old(self).tab_map().contains_key(tab_id@)
                    &&& e == old(self).tab_map()[tab_id@]
                    &&& exists|i: int| 0 <= i < old(self).order().len() && old(self).order()[i] == tab_id@
                        && final(self).order() == old(self).order().remove(i)
                    &&& final(self).active() == (if old(self).active() == Some(tab_id@) {
                            if final(self).order().len() > 0 { Some(final(self).order()[0]) } else { None::<Seq<char>> }
                        } else {
                            old(self).active()
                        })
                },
                None => {
                    &&& !old(self).tab_map().contains_key(tab_id@)
                    &&& final(self).order() == old(self).order()
                    &&& final(self).active() == old(self).active()
                },
            },
    {
        let ghost old_self = *self;
        proof { self.tabs.lemma_wf(); }
        let removed = self.tabs.remove(tab_id);
        proof { self.tabs.lemma_wf(); }
        if removed.is_some() {
            proof {
                let i = choose|i: int| 0 <= i < old_self.tabs.key_seq().len() && old_self.tabs.key_seq()[i] == tab_id@
                    && self.tabs.key_seq() == old_self.tabs.key_seq().remove(i);
                assert(old_self.order()[i] == tab_id@ && self.order() == old_self.order().remove(i));
            }
            let was_active = match &self.active_tab_id {
                Some(a) => crate::text::str_eq(a.as_str(), tab_id),
                None => false,
            };
            if was_active {
                self.active_tab_id = self.tabs.first_key();
                proof {
                    if self.tabs.entries().len() > 0 {
                        assert(self.tabs.key_seq()[0] == self.tabs.entries()[0].0);
                        assert(self.tabs.key_seq().contains(self.tabs.entries()[0].0));
                    }
                }
            } else {
                proof {
                    match old_self.active_tab_id {
                        Some(a) => {
                            assert(a@ != tab_id@);
                            assert(self.tabs@.contains_key(a@));
                        },
                        None => {
                            assert(old_self.tabs.entries().len() == 0);
                            old_self.tabs.lemma_wf();
                        },
                    }
                }
            }
        }
        proof {
            assert forall|k: Seq<char>| #[trigger] self.tabs@.contains_key(k) implies exists|n: nat| 1 <= n < self.counter && k == tab_key(n) by {
                assert(old_self.tabs@.contains_key(k));
            }
        }
        removed
    }

    /// Makes a registered tab the active one.
    pub fn switch_tab(&mut self, tab_id: &str) -> (r: Result<(), TabError>)
        requires
            old(self).wf(),
        ensures
            final(self).wf(),
            r is Ok <==> old(self).tab_map().contains_key(tab_id@),
            match r {
                Ok(()) => {
                    &&& final(self).active() == Some(tab_id@)
                    &&& final(self).tab_map() == old(self).tab_map()
                    &&& final(self).order() == old(self).order()
                    &&& final(self).max_tabs() == old(self).max_tabs()
                    &&& final(self).next_number() == old(self).next_number()
                },
                Err(e) => e == TabError::NotFound(e->NotFound_0) && e->NotFound_0@ == tab_id@ && *final(self) == *old(self),
            },
    {
        if !self.tabs.contains_key(tab_id) {
            return Err(TabError::NotFound(tab_id.to_owned()));
        }
        self.active_tab_id = Some(tab_id.to_owned());
        Ok(())
    }

    /// Forgets every tab; the numbering goes on where it was.
    pub fn clear(&mut self)
        requires
            old(self).wf(),
        ensures
            final(self).wf(),
            final(self).tab_map() == Map::<Seq<char>, TabEntry<T>>::empty(),
            final(self).order().len() == 0,
            final(self).active() is None,
            final(self).max_tabs() == old(self).max_tabs(),
            final(self).next_number() == old(self).next_number(),
    {
        self.tabs.clear();
        self.active_tab_id = None;
        assert(self.order() =~= Seq::<Seq<char>>::empty());
    }
}


/// Some registered tab shows the DevTools target `t`.
pub open spec fn holds_target<T>(m: Map<Seq<char>, TabEntry<T>>, t: Seq<char>) -> bool {
    exists|k: Seq<char>| m.contains_key(k) && #[trigger] m[k].target_id@ == t
}

/// The page target announced by the parameters of `Target.targetCreated`:
/// its id and URL, when `targetInfo` names a `page` whose URL is not that of
/// an extension.
pub open spec fn created_page(params: JsonV) -> Option<(Seq<char>, Seq<char>)> {
    let info = json_get(params, "targetInfo"@);
    match (opt_str(opt_get(info, "targetId"@)), opt_str(opt_get(info, "type"@)), opt_str(opt_get(info, "url"@))) {
        (Some(t), Some(ty), Some(u)) => if ty == "page"@ && !starts_with(u, "chrome-extension://"@) {
            Some((t, u))
        } else {
            None
        },
        _ => None,
    }
}

/// The target named by the parameters of `Target.targetDestroyed`.
pub open spec fn destroyed_target(params: JsonV) -> Option<Seq<char>> {
    opt_str(json_get(params, "targetId"@))
}

/// The event's method is `name`.
pub open spec fn is_method(method: Option<&str>, name: Seq<char>) -> bool {
    match method {
        Some(m) => m@ == name,
        None => false,
    }
}

/// What a `Target` domain event asks of the caller.
pub enum TargetAction {
    /// A new page target that no tab shows yet: attach to it, then register it.
    Attach { target_id: String, url: String },
    /// The tab with this id showed a destroyed target and was removed.
    Forgot(String),
    /// Nothing to do.
    Ignore,
}

/// The text a tab id lookup shows when the id is not registered, for
/// commands addressed to a tab.
pub open spec fn missing_target_text(id: Seq<char>) -> Seq<char> {
    "Tab with ID '"@ + id + "' not found in this session"@
}

/// The text a tab id lookup shows when the id is not registered, for reads
/// of a tab's event caches.
pub open spec fn missing_state_text(id: Seq<char>) -> Seq<char> {
    "Tab '"@ + id + "' not found"@
}

/// Where a command goes.
pub enum TabLookup {
    /// To the registered tab with this id.
    Tab(String),
    /// The requested id is not registered.
    Missing(String),
    /// No tab was named and none is active: to the instance's own connection.
    Default,
}

/// The refusal of a command addressed to an unknown tab.
pub fn missing_target_message(id: &str) -> (r: String)
    ensures
        r@ == missing_target_text(id@),
{
    concat3("Tab with ID '", id, "' not found in this session")
}

/// The refusal of a read of an unknown tab's caches.
pub fn missing_state_message(id: &str) -> (r: String)
    ensures
        r@ == missing_state_text(id@),
{
    concat3("Tab '", id, "' not found")
}

/// The JSON of one tab in a listing.
pub open spec fn tab_json<T>(id: Seq<char>, e: TabEntry<T>) -> JsonV {
    JsonV::Object(seq![
        ("tab_id"@, JsonV::Str(id)),
        ("label"@, opt_str_jv(ostr(e.label))),
        ("target_id"@, JsonV::Str(e.target_id@)),
        ("url"@, JsonV::Str(e.url@)),
    ])
}

/// The note a listing carries when no tab is registered.
pub open spec fn no_tabs_note() -> Seq<char> {
    "No tabs registered in this session. Tools that omit 'tab_id' fall back to the instance's default single-tab connection."@
}

impl<T> TabRegistry<T> {
    /// The tabs in registration order, as a listing shows them.
    pub open spec fn tab_jsons(self) -> Seq<JsonV> {
        Seq::new(self.order().len(), |i: int| tab_json(self.order()[i], self.tab_map()[self.order()[i]]))
    }

    /// The listing: the active id and the tabs, with a note when there are none.
    pub open spec fn listing_of(self) -> JsonV {
        if self.order().len() == 0 {
            JsonV::Object(seq![
                ("active_tab_id"@, JsonV::Null),
                ("tabs"@, JsonV::Array(Seq::empty())),
                ("note"@, JsonV::Str(no_tabs_note())),
            ])
        } else {
            JsonV::Object(seq![
                ("active_tab_id"@, opt_str_jv(self.active())),
                ("tabs"@, JsonV::Array(self.tab_jsons())),
            ])
        }
    }

    /// The id of the first tab, in registration order, that shows the target.
    pub fn find_target(&self, target_id: &str) -> (r: Option<String>)
        requires
            self.wf(),
        ensures
            match r {
                Some(id) => self.tab_map().contains_key(id@) && self.tab_map()[id@].target_id@ == target_id@,
                None => !holds_target(self.tab_map(), target_id@),
            },
    {
        proof { self.tabs.lemma_wf(); }
        let n = self.tabs.len();
        let mut i: usize = 0;
        while i < n
            invariant
                self.wf(),
                n == self.tabs.entries().len(),
                i <= n,
                forall|j: int| 0 <= j < i ==> #[trigger] self.tabs.entries()[j].1.target_id@ != target_id@,
            decreases n - i,
        {
            let (k, e) = self.tabs.entry_at(i);
            if str_eq(e.target_id.as_str(), target_id) {
                proof {
                    self.tabs.lemma_wf();
                    assert(self.tabs.key_seq()[i as int] == k@);
                }
                return Some(k.clone());
            }
            i = i + 1;
        }
        proof {
            self.tabs.lemma_wf();
            assert forall|k: Seq<char>| self.tab_map().contains_key(k) implies #[trigger] self.tab_map()[k].target_id@ != target_id@ by {
                assert(self.tabs.key_seq().contains(k));
                let j = choose|j: int| 0 <= j < self.tabs.key_seq().len() && self.tabs.key_seq()[j] == k;
                assert(self.tabs.entries()[j].0 == k);
            }
        }
        None
    }

    /// Handles a `Target` domain event.  A created page target that no tab
    /// shows yet is handed back to be attached; the tab of a destroyed target
    /// is removed; every other event leaves the registry as it is.
    pub fn on_target_event(&mut self, method: Option<&str>, params: Option<&Json>) -> (r: TargetAction)
        requires
            old(self).wf(),
        ensures
            final(self).wf(),
            final(self).max_tabs() == old(self).max_tabs(),
            final(self).next_number() == old(self).next_number(),
            match r {
                TargetAction::Attach { target_id, url } => {
                    &&& is_method(method, "Target.targetCreated"@)
                    &&& params is Some
                    &&& created_page(params->0@) == Some((target_id@, url@))
                    &&& !holds_target(old(self).tab_map(), target_id@)
                    &&& *final(self) == *old(self)
                },
                TargetAction::Forgot(id) => {
                    &&& is_method(method, "Target.targetDestroyed"@)
                    &&& params is Some
                    &&& destroyed_target(params->0@) is Some
                    &&& old(self).tab_map().contains_key(id@)
                    &&& old(self).tab_map()[id@].target_id@ == destroyed_target(params->0@)->0
                    &&& final(self).tab_map() == old(self).tab_map().remove(id@)
                },
                TargetAction::Ignore => {
                    &&& *final(self) == *old(self)
                    &&& !(is_method(method, "Target.targetCreated"@) && params is Some
                        && created_page(params->0@) is Some
                        && !holds_target(old(self).tab_map(), (created_page(params->0@)->0).0))
                    &&& !(is_method(method, "Target.targetDestroyed"@) && params is Some
                        && destroyed_target(params->0@) is Some
                        && holds_target(old(self).tab_map(), destroyed_target(params->0@)->0))
                },
            },
    {
        let m = match method {
            Some(m) => m,
            None => return TargetAction::Ignore,
        };
        let p = match params {
            Some(p) => p,
            None => return TargetAction::Ignore,
        };
        if str_eq(m, "Target.targetCreated") {
            proof { reveal_strlit("Target.targetCreated"); reveal_strlit("Target.targetDestroyed"); }
            assert("Target.targetCreated"@.len() != "Target.targetDestroyed"@.len());
            let info = p.get("targetInfo");
            let tid = str_in(get_in(info, "targetId"));
            let ty = str_in(get_in(info, "type"));
            let url = str_in(get_in(info, "url"));
            match (tid, ty, url) {
                (Some(t), Some(ty), Some(u)) => {
                    if str_eq(ty, "page") && !starts_with_str(u, "chrome-extension://") {
                        match self.find_target(t) {
                            Some(_) => TargetAction::Ignore,
                            None => TargetAction::Attach { target_id: t.to_owned(), url: u.to_owned() },
                        }
                    } else {
                        TargetAction::Ignore
                    }
                },
                _ => TargetAction::Ignore,
            }
        } else if str_eq(m, "Target.targetDestroyed") {
            proof { reveal_strlit("Target.targetCreated"); reveal_strlit("Target.targetDestroyed"); }
            match str_in(p.get("targetId")) {
                Some(t) => match self.find_target(t) {
                    None => {
                        assert(destroyed_target(p@) == Some(t@));
                        TargetAction::Ignore
                    },
                    Some(id) => {
                        let _ = self.remove_tab(id.as_str());
                        TargetAction::Forgot(id)
                    },
                },
                None => TargetAction::Ignore,
            }
        } else {
            TargetAction::Ignore
        }
    }

    /// Where a command goes: the named tab, else the active tab, else the
    /// instance's own connection.
    pub fn lookup(&self, tab_id: Option<&str>) -> (r: TabLookup)
        requires
            self.wf(),
        ensures
            match tab_id {
                Some(id) => if self.tab_map().contains_key(id@) {
                    r matches TabLookup::Tab(x) && x@ == id@
                } else {
                    r matches TabLookup::Missing(x) && x@ == id@
                },
                None => match self.active() {
                    Some(a) => r matches TabLookup::Tab(x) && x@ == a && self.tab_map().contains_key(a),
                    None => r matches TabLookup::Default,
                },
            },
    {
        match tab_id {
            Some(id) => if self.tabs.contains_key(id) {
                TabLookup::Tab(id.to_owned())
            } else {
                TabLookup::Missing(id.to_owned())
            },
            None => match &self.active_tab_id {
                Some(a) => TabLookup::Tab(a.clone()),
                None => TabLookup::Default,
            },
        }
    }

    /// The listing of the registered tabs.
    pub fn listing(&self) -> (r: Json)
        requires
            self.wf(),
        ensures
            r@ == self.listing_of(),
    {
        proof { self.tabs.lemma_wf(); }
        let n = self.tabs.len();
        if n == 0 {
            let mut m: Vec<(String, Json)> = Vec::new();
            m.push(("active_tab_id".to_owned(), Json::Null));
            let ghost none: Seq<JsonV> = Seq::empty();
            m.push(("tabs".to_owned(), array_of(Vec::new(), Ghost(none))));
            m.push(("note".to_owned(), str_json("No tabs registered in this session. Tools that omit 'tab_id' fall back to the instance's default single-tab connection.")));
            let ghost e = seq![
                ("active_tab_id"@, JsonV::Null),
                ("tabs"@, JsonV::Array(Seq::empty())),
                ("note"@, JsonV::Str(no_tabs_note())),
            ];
            return object_of(m, Ghost(e));
        }
        let mut items: Vec<Json> = Vec::new();
        let mut i: usize = 0;
        while i < n
            invariant
                self.wf(),
                n == self.order().len(),
                i <= n,
                items@.len() == i,
                forall|j: int| 0 <= j < i ==> #[trigger] items@[j]@ == self.tab_jsons()[j],
            decreases n - i,
        {
            let (k, e) = self.entry_at(i);
            let mut m: Vec<(String, Json)> = Vec::new();
            m.push(("tab_id".to_owned(), str_json(k.as_str())));
            m.push(("label".to_owned(), opt_str_json(&e.label)));
            m.push(("target_id".to_owned(), str_json(e.target_id.as_str())));
            m.push(("url".to_owned(), str_json(e.url.as_str())));
            let ghost em = seq![
                ("tab_id"@, JsonV::Str(k@)),
                ("label"@, opt_str_jv(ostr(e.label))),
                ("target_id"@, JsonV::Str(e.target_id@)),
                ("url"@, JsonV::Str(e.url@)),
            ];
            let item = object_of(m, Ghost(em));
            items.push(item);
            i = i + 1;
        }
        let active = match &self.active_tab_id {
            Some(a) => str_json(a.as_str()),
            None => Json::Null,
        };
        let mut m: Vec<(String, Json)> = Vec::new();
        m.push(("active_tab_id".to_owned(), active));
        m.push(("tabs".to_owned(), array_of(items, Ghost(self.tab_jsons()))));
        let ghost top = seq![
            ("active_tab_id"@, opt_str_jv(self.active())),
            ("tabs"@, JsonV::Array(self.tab_jsons())),
        ];
        object_of(m, Ghost(top))
    }
}

/// Every registry that keeps its invariant has an active tab exactly when it
/// has tabs, and the active tab is always one of them.
pub proof fn law_active_tab_is_registered<T>(reg: TabRegistry<T>)
    requires
        reg.wf(),
    ensures
        reg.active() is Some <==> reg.tab_map().len() > 0,
        reg.active() is Some ==> reg.tab_map().contains_key(reg.active()->0),
{
    reg.lemma_wf();
}

/// A registry never holds more tabs than the limit it was made with.
pub proof fn law_tabs_within_limit<T>(reg: TabRegistry<T>)
    requires
        reg.wf(),
    ensures
        reg.tab_map().len() <= reg.max_tabs(),
        reg.order().len() <= reg.max_tabs(),
{
    reg.lemma_wf();
}

/// A tab id is never handed out twice: the id a registration returns is not
/// among the registered ids, and every later id differs from it.
pub proof fn law_tab_ids_are_fresh<T>(reg: TabRegistry<T>, n: nat)
    requires
        reg.wf(),
        n >= reg.next_number(),
    ensures
        !reg.tab_map().contains_key(tab_key(n)),
{
    reg.lemma_wf();
    if reg.tab_map().contains_key(tab_key(n)) {
        let m = choose|m: nat| 1 <= m < reg.next_number() && tab_key(n) == tab_key(m);
        lemma_tab_key_injective(n, m);
    }
}

/// Labels identify tabs: no two registered tabs carry the same label.
pub proof fn law_tab_labels_are_unique<T>(reg: TabRegistry<T>, a: Seq<char>, b: Seq<char>)
    requires
        reg.wf(),
        reg.tab_map().contains_key(a),
        reg.tab_map().contains_key(b),
        a != b,
        reg.tab_map()[a].label is Some,
        reg.tab_map()[b].label is Some,
    ensures
        reg.tab_map()[a].label->0@ != reg.tab_map()[b].label->0@,
{
    reg.lemma_wf();
}

} // verus!
