//! The browser instances a server manages: their descriptors, the bounded
//! registry of their sessions, and the lookup behind every tool's
//! `instance_id`.
use vstd::prelude::*;
use crate::launch::{feature_name, feature_names, ChromeFeature};
use crate::strmap::{Duplicate, StrMap};
use crate::text::{concat3, decimal, lemma_decimal_injective, str_eq, u64_to_decimal};
use crate::console::{join, join_texts};

verus! {

/// What a client learns of an instance.
pub struct InstanceDescriptor {
    pub id: String,
    pub label: Option<String>,
    pub host: String,
    pub port: u16,
    pub profile_dir: Option<String>,
    pub features: Vec<String>,
    pub is_default: bool,
}

/// The model of a descriptor.
pub struct InstanceV {
    pub id: Seq<char>,
    pub label: Option<Seq<char>>,
    pub host: Seq<char>,
    pub port: u16,
    pub profile_dir: Option<Seq<char>>,
    pub features: Seq<Seq<char>>,
    pub is_default: bool,
}

/// The characters of an optional string.
pub open spec fn opt_chars(o: Option<String>) -> Option<Seq<char>> {
    match o {
        Some(s) => Some(s@),
        None => None,
    }
}

impl View for InstanceDescriptor {
    type V = InstanceV;

    open spec fn view(&self) -> InstanceV {
        InstanceV {
            id: self.id@,
            label: opt_chars(self.label),
            host: self.host@,
            port: self.port,
            profile_dir: opt_chars(self.profile_dir),
            features: self.features@.map_values(|s: String| s@),
            is_default: self.is_default,
        }
    }
}

/// A copy of a list of strings.
fn copy_strings(v: &Vec<String>) -> (r: Vec<String>)
    ensures
        r@.map_values(|s: String| s@) == v@.map_values(|s: String| s@),
{
    let mut r: Vec<String> = Vec::new();
    let mut i: usize = 0;
    while i < v.len()
        invariant
            i <= v@.len(),
            r@.len() == i,
            forall|j: int| 0 <= j < i ==> #[trigger] r@[j]@ == v@[j]@,
        decreases v@.len() - i,
    {
        r.push(v[i].clone());
        i = i + 1;
    }
    assert(r@.map_values(|s: String| s@) =~= v@.map_values(|s: String| s@));
    r
}

impl Duplicate for InstanceDescriptor {
    fn duplicate(&self) -> (r: Self) {
        InstanceDescriptor {
            id: self.id.clone(),
            label: self.label.clone(),
            host: self.host.clone(),
            port: self.port,
            profile_dir: self.profile_dir.clone(),
            features: copy_strings(&self.features),
            is_default: self.is_default,
        }
    }
}

/// The descriptor of the default instance: on `127.0.0.1` at the given
/// port, with the given presets, no label and no known profile directory.
pub open spec fn default_descriptor_of(port: u16, features: Seq<ChromeFeature>) -> InstanceV {
    InstanceV {
        id: "default"@,
        label: None,
        host: "127.0.0.1"@,
        port: port,
        profile_dir: None,
        features: features.map_values(|f: ChromeFeature| feature_name(f)),
        is_default: true,
    }
}

/// The descriptor of the default instance.
pub fn default_descriptor(port: u16, features: &[ChromeFeature]) -> (r: InstanceDescriptor)
    ensures
        r@ == default_descriptor_of(port, features@),
{
    InstanceDescriptor {
        id: "default".to_owned(),
        label: None,
        host: "127.0.0.1".to_owned(),
        port,
        profile_dir: None,
        features: feature_names(features),
        is_default: true,
    }
}

/// The descriptor at position `i` carries the label, and none before it does.
pub open spec fn first_with_label(ds: Seq<InstanceDescriptor>, lbl: Seq<char>, i: int) -> bool {
    &&& 0 <= i < ds.len()
    &&& ds[i]@.label == Some(lbl)
    &&& forall|j: int| 0 <= j < i ==> #[trigger] ds[j]@.label != Some(lbl)
}

/// Some descriptor carries the label.
pub open spec fn label_used(ds: Seq<InstanceDescriptor>, lbl: Seq<char>) -> bool {
    exists|i: int| 0 <= i < ds.len() && #[trigger] ds[i]@.label == Some(lbl)
}

/// The id the registry hands out for its `n`-th generated instance.
pub open spec fn generated_id(n: nat) -> Seq<char> {
    "chrome-"@ + decimal(n)
}

/// The ids of a list of descriptors, in order.
pub open spec fn ids_of(ds: Seq<InstanceDescriptor>) -> Seq<Seq<char>> {
    ds.map_values(|d: InstanceDescriptor| d@.id)
}

/// The text of a lookup of an unknown instance id: it names the valid ids.
pub open spec fn missing_instance_text(id: Seq<char>, valid: Seq<Seq<char>>) -> Seq<char> {
    "Instance id '"@ + id + "' not found. Valid instance ids: "@
        + (if valid.len() == 0 { "none"@ } else { join(valid, ", "@) })
}

/// Why a new instance with this id and label would be refused, checked in
/// this order: the registry holds its maximum of sessions, a session already
/// has the id, or a descriptor already carries the label (the message names
/// the first such instance).  `None` when it is admitted.
pub open spec fn admission_error<S>(reg: Registry<S>, id: Seq<char>, label: Option<Seq<char>>) -> Option<Seq<char>> {
    if reg.session_map().len() >= reg.max_instances() {
        Some("Instance limit reached ("@ + decimal(reg.max_instances()) + ")"@)
    } else if reg.session_map().contains_key(id) {
        Some("Instance id '"@ + id + "' already exists"@)
    } else if label is Some && label_used(reg.descriptor_seq(), label->0) {
        let i = choose|i: int| first_with_label(reg.descriptor_seq(), label->0, i);
        Some("Label '"@ + label->0 + "' is already in use by instance '"@ + reg.descriptor_seq()[i]@.id + "'"@)
    } else {
        None
    }
}

/// The label of an optional string.
pub open spec fn opt_str_chars(o: Option<&str>) -> Option<Seq<char>> {
    match o {
        Some(s) => Some(s@),
        None => None,
    }
}

/// Which session a tool addresses.
pub enum SessionLookup {
    /// The registered session with this id.
    Found(String),
    /// The default session, which is registered on first use.
    AddDefault,
    /// No such instance; the message.
    Missing(String),
}

/// The registry of instances: sessions and descriptors by id.
pub struct Registry<S> {
    sessions: StrMap<S>,
    descriptors: StrMap<InstanceDescriptor>,
    counter: usize,
    max_instances: usize,
}

impl<S> Registry<S> {
    /// The sessions by id.
    pub closed spec fn session_map(self) -> Map<Seq<char>, S> {
        self.sessions@
    }

    /// The descriptors by id.
    pub closed spec fn descriptor_map(self) -> Map<Seq<char>, InstanceDescriptor> {
        self.descriptors@
    }

    /// The descriptors in the order they were first registered.
    pub closed spec fn descriptor_seq(self) -> Seq<InstanceDescriptor> {
        self.descriptors.value_seq()
    }

    /// The most sessions the registry holds.
    pub closed spec fn max_instances(self) -> nat {
        self.max_instances as nat
    }

    /// The number the next generated id gets.
    pub closed spec fn next_number(self) -> nat {
        self.counter as nat
    }

    /// Whether another instance id can still be generated.
    pub fn has_fresh_id(&self) -> (b: bool)
        ensures
            b == (self.next_number() < usize::MAX),
    {
        self.counter < usize::MAX
    }

    /// Both maps keep their keys unique, and the sessions stay within the
    /// limit.
    pub closed spec fn wf(self) -> bool {
        &&& self.sessions.wf()
        &&& self.descriptors.wf()
        &&& self.sessions.entries().len() <= self.max_instances
        &&& forall|k: Seq<char>| #[trigger] self.descriptors@.contains_key(k) ==> self.descriptors@[k].id@ == k
    }

    /// What the invariant gives the callers.
    pub proof fn lemma_wf(self)
        requires
            self.wf(),
        ensures
            self.session_map().dom().finite(),
            self.descriptor_map().dom().finite(),
            self.descriptor_map().len() == self.descriptor_seq().len(),
            self.session_map().len() <= self.max_instances(),
            forall|k: Seq<char>| #[trigger] self.descriptor_map().contains_key(k) ==> self.descriptor_map()[k].id@ == k,
            forall|i: int| 0 <= i < self.descriptor_seq().len() ==> {
                &&& self.descriptor_map().contains_key(#[trigger] self.descriptor_seq()[i]@.id)
                &&& self.descriptor_map()[self.descriptor_seq()[i]@.id] == self.descriptor_seq()[i]
            },
            forall|k: Seq<char>| #[trigger] self.descriptor_map().contains_key(k) ==>
                exists|i: int| 0 <= i < self.descriptor_seq().len() && #[trigger] self.descriptor_seq()[i]@.id == k,
            forall|i: int, j: int| 0 <= i < j < self.descriptor_seq().len() ==>
                #[trigger] self.descriptor_seq()[i]@.id != #[trigger] self.descriptor_seq()[j]@.id,
    {
        self.sessions.lemma_wf();
        self.descriptors.lemma_wf();
        let e = self.descriptors.entries();
        assert forall|i: int| 0 <= i < self.descriptor_seq().len() implies {
            &&& self.descriptor_map().contains_key(#[trigger] self.descriptor_seq()[i]@.id)
            &&& self.descriptor_map()[self.descriptor_seq()[i]@.id] == self.descriptor_seq()[i]
        } by {
            assert(self.descriptor_seq()[i] == e[i].1);
            assert(self.descriptors.key_seq()[i] == e[i].0);
            assert(self.descriptors@.contains_key(e[i].0));
            assert(self.descriptors@[e[i].0] == e[i].1);
        }
        assert forall|k: Seq<char>| #[trigger] self.descriptor_map().contains_key(k) implies
            exists|i: int| 0 <= i < self.descriptor_seq().len() && #[trigger] self.descriptor_seq()[i]@.id == k by {
            assert(self.descriptors.key_seq().contains(k));
            let i = choose|i: int| 0 <= i < self.descriptors.key_seq().len() && self.descriptors.key_seq()[i] == k;
            assert(self.descriptors.key_seq()[i] == e[i].0);
            assert(self.descriptor_seq()[i] == e[i].1);
            assert(self.descriptors@[e[i].0] == e[i].1);
            assert(self.descriptors@.contains_key(k));
            assert(self.descriptors@[k].id@ == k);
            assert(self.descriptor_seq()[i]@.id == k);
        }
        assert forall|i: int, j: int| 0 <= i < j < self.descriptor_seq().len() implies
            #[trigger] self.descriptor_seq()[i]@.id != #[trigger] self.descriptor_seq()[j]@.id by {
            assert(self.descriptor_seq()[i] == e[i].1);
            assert(self.descriptor_seq()[j] == e[j].1);
            assert(self.descriptors.key_seq()[i] == e[i].0);
            assert(self.descriptors.key_seq()[j] == e[j].0);
            assert(self.descriptors.key_seq().contains(e[i].0));
            assert(self.descriptors.key_seq().contains(e[j].0));
            assert(self.descriptors@.contains_key(e[i].0));
            assert(self.descriptors@.contains_key(e[j].0));
            assert(self.descriptor_seq()[i]@.id == e[i].0);
            assert(self.descriptor_seq()[j]@.id == e[j].0);
            assert(e[i].0 != e[j].0);
        }
    }

    /// An empty registry that holds at most `max_instances` sessions; the
    /// generated ids start at `chrome-2`, the default instance being the first.
    pub fn new(max_instances: usize) -> (r: Self)
        ensures
            r.wf(),
            r.session_map() == Map::<Seq<char>, S>::empty(),
            r.descriptor_map() == Map::<Seq<char>, InstanceDescriptor>::empty(),
            r.descriptor_seq().len() == 0,
            r.max_instances() == max_instances,
            r.next_number() == 2,
    {
        let r = Registry { sessions: StrMap::new(), descriptors: StrMap::new(), counter: 2, max_instances };
        assert(r.descriptor_seq() =~= Seq::<InstanceDescriptor>::empty());
        r
    }

    /// The registry a server starts with: room for `max_instances` sessions
    /// and the descriptor of the default instance, whose session is
    /// registered on first use.
    pub fn with_default(max_instances: usize, port: u16, features: &[ChromeFeature]) -> (r: Self)
        ensures
            r.wf(),
            r.session_map() == Map::<Seq<char>, S>::empty(),
            r.descriptor_map().dom() == set!["default"@],
            r.descriptor_map()["default"@]@ == default_descriptor_of(port, features@),
            r.max_instances() == max_instances,
            r.next_number() == 2,
    {
        let mut r = Registry::new(max_instances);
        let d = default_descriptor(port, features);
        proof { reveal_strlit("default"); }
        r.register_descriptor(d);
        assert(r.descriptor_map().dom() =~= set!["default"@]);
        r
    }

    /// Records a descriptor, replacing the one with the same id.
    pub fn register_descriptor(&mut self, desc: InstanceDescriptor)
        requires
            old(self).wf(),
        ensures
            final(self).wf(),
            final(self).descriptor_map() == old(self).descriptor_map().insert(desc.id@, desc),
            final(self).session_map() == old(self).session_map(),
            final(self).max_instances() == old(self).max_instances(),
            final(self).next_number() == old(self).next_number(),
    {
        let id = desc.id.clone();
        let _ = self.descriptors.insert(id, desc);
    }

    /// The session registered under an id.
    pub fn get_session(&self, id: &str) -> (r: Option<&S>)
        requires
            self.wf(),
        ensures
            match r {
                Some(s) => self.session_map().contains_key(id@) && *s == self.session_map()[id@],
                None => !self.session_map().contains_key(id@),
            },
    {
        self.sessions.get(id)
    }

    /// The index of the first descriptor carrying the label.
    fn label_owner(&self, lbl: &str) -> (r: Option<usize>)
        requires
            self.wf(),
        ensures
            match r {
                Some(i) => first_with_label(self.descriptor_seq(), lbl@, i as int),
                None => !label_used(self.descriptor_seq(), lbl@),
            },
    {
        proof { self.descriptors.lemma_wf(); }
        let n = self.descriptors.len();
        let mut i: usize = 0;
        while i < n
            invariant
                self.wf(),
                n == self.descriptor_seq().len(),
                i <= n,
                forall|j: int| 0 <= j < i ==> #[trigger] self.descriptor_seq()[j]@.label != Some(lbl@),
            decreases n - i,
        {
            let (_k, d) = self.descriptors.entry_at(i);
            assert(self.descriptor_seq()[i as int] == *d);
            match &d.label {
                Some(l) => {
                    if str_eq(l.as_str(), lbl) {
                        return Some(i);
                    }
                },
                None => {},
            }
            i = i + 1;
        }
        None
    }

    /// Whether a new instance with this id and label would be admitted:
    /// refused when the registry holds its maximum of sessions, when a
    /// session already has the id, or when a descriptor already carries the
    /// label (the message names the first such instance).
    pub fn admission(&self, id: &str, label: Option<&str>) -> (r: Result<(), String>)
        requires
            self.wf(),
        ensures
            match r {
                Ok(()) => admission_error(*self, id@, opt_str_chars(label)) is None,
                Err(e) => admission_error(*self, id@, opt_str_chars(label)) == Some(e@),
            },
    {
        proof { self.sessions.lemma_wf(); }
        if self.sessions.len() >= self.max_instances {
            let n = u64_to_decimal(self.max_instances as u64);
            return Err(concat3("Instance limit reached (", n.as_str(), ")"));
        }
        if self.sessions.contains_key(id) {
            return Err(concat3("Instance id '", id, "' already exists"));
        }
        match label {
            Some(l) => match self.label_owner(l) {
                Some(i) => {
                    let (_k, d) = self.descriptors.entry_at(i);
                    let head = concat3("Label '", l, "' is already in use by instance '");
                    let msg = concat3(head.as_str(), d.id.as_str(), "'");
                    proof {
                        let ds = self.descriptor_seq();
                        assert(ds[i as int] == *d);
                        assert(label_used(ds, l@));
                        let j = choose|j: int| first_with_label(ds, l@, j);
                        assert(first_with_label(ds, l@, j));
                        if j < i {
                            assert(ds[j]@.label != Some(l@));
                        } else if j > i {
                            assert(ds[i as int]@.label != Some(l@));
                        }
                        assert(j == i);
                    }
                    return Err(msg);
                },
                None => {},
            },
            None => {},
        }
        Ok(())
    }

    /// Registers a session with its descriptor, when
    /// [`admission`](Self::admission) admits its id and label.
    pub fn add_session(&mut self, desc: InstanceDescriptor, session: S) -> (r: Result<(), String>)
        requires
            old(self).wf(),
        ensures
            final(self).wf(),
            final(self).max_instances() == old(self).max_instances(),
            final(self).next_number() == old(self).next_number(),
            r is Ok <==> admission_error(*old(self), desc.id@, desc@.label) is None,
            match r {
                Ok(()) => {
                    &&& final(self).session_map() == old(self).session_map().insert(desc.id@, session)
                    &&& final(self).descriptor_map() == old(self).descriptor_map().insert(desc.id@, desc)
                },
                Err(e) => {
                    &&& *final(self) == *old(self)
                    &&& admission_error(*old(self), desc.id@, desc@.label) == Some(e@)
                },
            },
    {
        let label: Option<&str> = match &desc.label {
            Some(l) => Some(l.as_str()),
            None => None,
        };
        match self.admission(desc.id.as_str(), label) {
            Err(e) => return Err(e),
            Ok(()) => {},
        }
        proof { self.sessions.lemma_wf(); }
        let id = desc.id.clone();
        let ghost before = self.sessions;
        let _ = self.descriptors.insert(id.clone(), desc);
        let _ = self.sessions.insert(id, session);
        proof {
            assert(self.sessions.key_seq().len() == before.key_seq().len() + 1);
        }
        Ok(())
    }

    /// Removes an instance: its descriptor and its session, which is
    /// returned.
    pub fn remove_session(&mut self, id: &str) -> (r: Option<S>)
        requires
            old(self).wf(),
        ensures
            final(self).wf(),
            final(self).session_map() == old(self).session_map().remove(id@),
            final(self).descriptor_map() == old(self).descriptor_map().remove(id@),
            final(self).max_instances() == old(self).max_instances(),
            final(self).next_number() == old(self).next_number(),
            match r {
                Some(s) => old(self).session_map().contains_key(id@) && s == old(self).session_map()[id@],
                None => !old(self).session_map().contains_key(id@),
            },
    {
        let _ = self.descriptors.remove(id);
        let ghost before = self.sessions;
        let r = self.sessions.remove(id);
        proof {
            if r is Some {
                let i = choose|i: int| 0 <= i < before.key_seq().len() && before.key_seq()[i] == id@
                    && self.sessions.key_seq() == before.key_seq().remove(i);
                assert(self.sessions.key_seq().len() == before.key_seq().len() - 1);
            }
        }
        r
    }

    /// Copies of the descriptors, in the order they were first registered.
    pub fn list_descriptors(&self) -> (r: Vec<InstanceDescriptor>)
        requires
            self.wf(),
        ensures
            r@.len() == self.descriptor_seq().len(),
            forall|i: int| 0 <= i < r@.len() ==> #[trigger] r@[i]@ == self.descriptor_seq()[i]@,
    {
        self.descriptors.values()
    }

    /// Whether any descriptor is registered.
    pub fn has_descriptors(&self) -> (b: bool)
        requires
            self.wf(),
        ensures
            b == (self.descriptor_seq().len() > 0),
    {
        proof { self.descriptors.lemma_wf(); }
        self.descriptors.len() > 0
    }

    /// A fresh `chrome-N` id, numbering on from the last one.
    pub fn generate_id(&mut self) -> (r: String)
        requires
            old(self).wf(),
            old(self).next_number() < usize::MAX,
        ensures
            final(self).wf(),
            r@ == generated_id(old(self).next_number()),
            final(self).next_number() == old(self).next_number() + 1,
            final(self).session_map() == old(self).session_map(),
            final(self).descriptor_map() == old(self).descriptor_map(),
            final(self).descriptor_seq() == old(self).descriptor_seq(),
            final(self).max_instances() == old(self).max_instances(),
    {
        let n = u64_to_decimal(self.counter as u64);
        self.counter = self.counter + 1;
        let r = concat3("chrome-", n.as_str(), "");
        proof { reveal_strlit(""); assert(r@ =~= generated_id(old(self).next_number())); }
        r
    }

    /// The ids of the descriptors, in the order they were first registered.
    pub fn descriptor_ids(&self) -> (r: Vec<String>)
        requires
            self.wf(),
        ensures
            r@.map_values(|s: String| s@) == ids_of(self.descriptor_seq()),
    {
        proof { self.descriptors.lemma_wf(); }
        let n = self.descriptors.len();
        let mut r: Vec<String> = Vec::new();
        let mut i: usize = 0;
        while i < n
            invariant
                self.wf(),
                n == self.descriptor_seq().len(),
                i <= n,
                r@.len() == i,
                forall|j: int| 0 <= j < i ==> #[trigger] r@[j]@ == self.descriptor_seq()[j]@.id,
            decreases n - i,
        {
            let (_k, d) = self.descriptors.entry_at(i);
            assert(self.descriptor_seq()[i as int] == *d);
            r.push(d.id.clone());
            i = i + 1;
        }
        assert(r@.map_values(|s: String| s@) =~= ids_of(self.descriptor_seq()));
        r
    }

    /// Which session an `instance_id` addresses: `default` when absent; the
    /// default instance is registered on first use; any other unknown id is
    /// refused.
    pub fn lookup(&self, id: Option<&str>) -> (r: SessionLookup)
        requires
            self.wf(),
        ensures
            ({
                let wanted = match id { Some(i) => i@, None => "default"@ };
                if self.session_map().contains_key(wanted) {
                    r matches SessionLookup::Found(x) && x@ == wanted
                } else if wanted == "default"@ {
                    r matches SessionLookup::AddDefault
                } else {
                    r matches SessionLookup::Missing(m) && m@ == missing_instance_text(wanted, ids_of(self.descriptor_seq()))
                }
            }),
    {
        let wanted = match id {
            Some(i) => i.to_owned(),
            None => "default".to_owned(),
        };
        if self.sessions.contains_key(wanted.as_str()) {
            SessionLookup::Found(wanted)
        } else if str_eq(wanted.as_str(), "default") {
            SessionLookup::AddDefault
        } else {
            let ids = self.descriptor_ids();
            let head = concat3("Instance id '", wanted.as_str(), "' not found. Valid instance ids: ");
            proof { reveal_strlit(""); }
            if ids.len() == 0 {
                let m = concat3(head.as_str(), "none", "");
                proof {
                    assert(ids_of(self.descriptor_seq()).len() == 0);
                    assert(m@ =~= missing_instance_text(wanted@, ids_of(self.descriptor_seq())));
                }
                SessionLookup::Missing(m)
            } else {
                let joined = join_texts(&ids, ", ");
                let m = concat3(head.as_str(), joined.as_str(), "");
                proof {
                    assert(ids_of(self.descriptor_seq()).len() != 0);
                    assert(m@ =~= missing_instance_text(wanted@, ids_of(self.descriptor_seq())));
                }
                SessionLookup::Missing(m)
            }
        }
    }

    /// Registers the default session on its first use, with the descriptor
    /// of the default instance.
    pub fn add_default(&mut self, session: S, port: u16, features: &[ChromeFeature]) -> (r: Result<(), String>)
        requires
            old(self).wf(),
        ensures
            final(self).wf(),
            final(self).max_instances() == old(self).max_instances(),
            final(self).next_number() == old(self).next_number(),
            r is Ok <==> {
                &&& old(self).session_map().len() < old(self).max_instances()
                &&& !old(self).session_map().contains_key("default"@)
            },
            match r {
                Ok(()) => {
                    &&& final(self).session_map() == old(self).session_map().insert("default"@, session)
                    &&& final(self).descriptor_map().contains_key("default"@)
                    &&& final(self).descriptor_map()["default"@]@ == default_descriptor_of(port, features@)
                },
                Err(e) => {
                    &&& *final(self) == *old(self)
                    &&& e@ == "Failed to register default session: "@ + (if old(self).session_map().len() >= old(self).max_instances() {
                        "Instance limit reached ("@ + decimal(old(self).max_instances()) + ")"@
                    } else {
                        "Instance id 'default' already exists"@
                    })
                },
            },
    {
        let desc = default_descriptor(port, features);
        proof { reveal_strlit("default"); }
        match self.add_session(desc, session) {
            Ok(()) => Ok(()),
            Err(e) => {
                let msg = concat3("Failed to register default session: ", e.as_str(), "");
                proof {
                    reveal_strlit("");
                    reveal_strlit("Instance id '");
                    reveal_strlit("' already exists");
                    reveal_strlit("Instance id 'default' already exists");
                    assert("Instance id '"@ + "default"@ + "' already exists"@ =~= "Instance id 'default' already exists"@);
                }
                Err(msg)
            },
        }
    }
}


/// A registry never holds more sessions than its limit.
pub proof fn law_sessions_within_limit<S>(reg: Registry<S>)
    requires
        reg.wf(),
    ensures
        reg.session_map().len() <= reg.max_instances(),
{
    reg.lemma_wf();
}

/// The listing holds exactly the registered descriptors, each once and
/// each as registered: a descriptor registered under an id is listed, and
/// every listed descriptor is the one registered under its id.
pub proof fn law_listing_matches_registry<S>(reg: Registry<S>, id: Seq<char>)
    requires
        reg.wf(),
    ensures
        reg.descriptor_map().contains_key(id) <==> ids_of(reg.descriptor_seq()).contains(id),
        reg.descriptor_map().contains_key(id) ==> exists|i: int| 0 <= i < reg.descriptor_seq().len()
            && #[trigger] reg.descriptor_seq()[i] == reg.descriptor_map()[id],
        ids_of(reg.descriptor_seq()).no_duplicates(),
{
    reg.lemma_wf();
    let ids = ids_of(reg.descriptor_seq());
    if reg.descriptor_map().contains_key(id) {
        let i = choose|i: int| 0 <= i < reg.descriptor_seq().len() && #[trigger] reg.descriptor_seq()[i]@.id == id;
        assert(ids[i] == id);
        assert(reg.descriptor_seq()[i] == reg.descriptor_map()[id]);
    }
    if ids.contains(id) {
        let i = choose|i: int| 0 <= i < ids.len() && ids[i] == id;
        assert(reg.descriptor_seq()[i]@.id == id);
    }
    assert forall|i: int, j: int| 0 <= i < ids.len() && 0 <= j < ids.len() && i != j implies ids[i] != ids[j] by {
        if i < j {
            assert(reg.descriptor_seq()[i]@.id != reg.descriptor_seq()[j]@.id);
        } else {
            assert(reg.descriptor_seq()[j]@.id != reg.descriptor_seq()[i]@.id);
        }
    }
}

/// Generated instance ids never repeat: `generate_id` moves on to the next
/// number each time, and different numbers give different ids.
pub proof fn law_generated_ids_are_distinct(a: nat, b: nat)
    requires
        a != b,
    ensures
        generated_id(a) != generated_id(b),
{
    reveal_strlit("chrome-");
    if generated_id(a) == generated_id(b) {
        assert(generated_id(a).subrange(7, generated_id(a).len() as int) =~= decimal(a));
        assert(generated_id(b).subrange(7, generated_id(b).len() as int) =~= decimal(b));
        lemma_decimal_injective(a, b);
    }
}

} // verus!
