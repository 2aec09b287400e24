//! The instance tools: opening a secondary instance, closing one, listing
//! them.
use vstd::prelude::*;
use crate::instances::{admission_error, generated_id, opt_chars, InstanceDescriptor, InstanceV, Registry};
use crate::json::{object_of, opt_str_json, opt_str_jv, str_json, Json, JsonNumber, JsonV, NumberV};
use crate::launch::{feature_name, feature_names, ChromeFeature, LaunchParams};
use crate::text::{concat3, str_eq};

verus! {

/// The arguments of `open_instance`.
pub struct OpenInstanceTool {
    /// The label, which also becomes the instance id; generated when absent.
    pub label: Option<String>,
    /// Whether the browser runs headless; no when absent.
    pub headless: Option<bool>,
    /// The proxy server.
    pub proxy: Option<String>,
    /// The capability presets.
    pub features: Option<Vec<ChromeFeature>>,
}

/// The arguments of `close_instance`.
pub struct CloseInstanceTool {
    /// The instance to close.
    pub instance_id: String,
}

/// The arguments of `list_instances`: none.
pub struct ListInstancesTool {}

/// The refusal of a second instance in user-profile mode.
pub open spec fn profile_lock_text() -> Seq<char> {
    "Cannot open multiple instances in --user-profile mode due to Chrome's profile lock"@
}

impl OpenInstanceTool {
    /// The presets asked for.
    pub open spec fn features_of(&self) -> Seq<ChromeFeature> {
        match self.features {
            Some(f) => f@,
            None => Seq::empty(),
        }
    }

    /// The id the new instance gets: the label, or the next generated one.
    pub open spec fn id_of<S>(&self, reg: Registry<S>) -> Seq<char> {
        match self.label { Some(l) => l@, None => generated_id(reg.next_number()) }
    }

    /// Decides the new instance's id and launch parameters, before anything
    /// is launched: refused in user-profile mode once any instance is known,
    /// and refused as registering would be (limit reached, id or label in
    /// use); the id is the label or a generated one; the browser is a
    /// secondary one on `127.0.0.1`, on any free port, without automation
    /// mode or the user's profile.
    pub fn prepare<S>(&self, reg: &mut Registry<S>, user_profile: bool) -> (r: Result<(String, LaunchParams), String>)
        requires
            old(reg).wf(),
            old(reg).next_number() < usize::MAX,
        ensures
            final(reg).wf(),
            final(reg).session_map() == old(reg).session_map(),
            final(reg).descriptor_map() == old(reg).descriptor_map(),
            final(reg).descriptor_seq() == old(reg).descriptor_seq(),
            final(reg).max_instances() == old(reg).max_instances(),
            r is Err <==> (old(reg).descriptor_seq().len() > 0 && user_profile)
                || admission_error(*old(reg), self.id_of(*old(reg)), opt_chars(self.label)) is Some,
            old(reg).descriptor_seq().len() > 0 && user_profile ==> *final(reg) == *old(reg),
            !(old(reg).descriptor_seq().len() > 0 && user_profile) ==>
                final(reg).next_number() == old(reg).next_number() + (if self.label is Some { 0nat } else { 1nat }),
            match r {
                Ok((id, p)) => {
                    &&& id@ == self.id_of(*old(reg))
                    &&& p.host_view() == "127.0.0.1"@
                    &&& p.port_view() == 0
                    &&& !p.automation_view()
                    &&& p.headless_view() == match self.headless { Some(h) => h, None => false }
                    &&& !p.user_profile_view()
                    &&& p.secondary_view()
                    &&& p.features_view() == self.features_of()
                    &&& p.proxy_view() == opt_chars(self.proxy)
                },
                Err(e) => if old(reg).descriptor_seq().len() > 0 && user_profile {
                    e@ == profile_lock_text()
                } else {
                    admission_error(*old(reg), self.id_of(*old(reg)), opt_chars(self.label)) == Some(e@)
                },
            },
    {
        if reg.has_descriptors() && user_profile {
            return Err("Cannot open multiple instances in --user-profile mode due to Chrome's profile lock".to_owned());
        }
        let ghost before = *reg;
        let id = match &self.label {
            Some(l) => l.clone(),
            None => reg.generate_id(),
        };
        let label: Option<&str> = match &self.label {
            Some(l) => Some(l.as_str()),
            None => None,
        };
        match reg.admission(id.as_str(), label) {
            Err(e) => {
                proof {
                    assert(reg.session_map() == before.session_map());
                    assert(admission_error(*reg, id@, opt_chars(self.label)) == admission_error(before, id@, opt_chars(self.label)));
                }
                return Err(e);
            },
            Ok(()) => {},
        }
        proof {
            assert(admission_error(*reg, id@, opt_chars(self.label)) == admission_error(before, id@, opt_chars(self.label)));
        }
        let headless = match self.headless {
            Some(h) => h,
            None => false,
        };
        let mut p = LaunchParams::new("127.0.0.1".to_owned(), 0, false, headless, false);
        p.set_secondary(true);
        match &self.features {
            Some(f) => p.set_features(f.clone()),
            None => {},
        }
        match &self.proxy {
            Some(x) => p.set_proxy(Some(x.clone())),
            None => {},
        }
        Ok((id, p))
    }

    /// The descriptor of the launched instance.
    pub fn descriptor(&self, id: String, port: u16, profile_dir: Option<String>, features: &[ChromeFeature]) -> (r: InstanceDescriptor)
        ensures
            r@ == (InstanceV {
                id: id@,
                label: opt_chars(self.label),
                host: "127.0.0.1"@,
                port: port,
                profile_dir: opt_chars(profile_dir),
                features: features@.map_values(|f: ChromeFeature| feature_name(f)),
                is_default: false,
            }),
    {
        InstanceDescriptor {
            id,
            label: self.label.clone(),
            host: "127.0.0.1".to_owned(),
            port,
            profile_dir,
            features: feature_names(features),
            is_default: false,
        }
    }
}

/// The answer to `open_instance`: the id, host, port and profile directory.
pub fn opened_instance_report(d: &InstanceDescriptor) -> (r: Json)
    ensures
        r@ == JsonV::Object(seq![
            ("instance_id"@, JsonV::Str(d.id@)),
            ("host"@, JsonV::Str(d.host@)),
            ("port"@, JsonV::Number(NumberV::PosInt(d.port as u64))),
            ("profile_dir"@, opt_str_jv(opt_chars(d.profile_dir))),
        ]),
{
    let mut m: Vec<(String, Json)> = Vec::new();
    m.push(("instance_id".to_owned(), str_json(d.id.as_str())));
    m.push(("host".to_owned(), str_json(d.host.as_str())));
    m.push(("port".to_owned(), Json::Number(JsonNumber::PosInt(d.port as u64))));
    m.push(("profile_dir".to_owned(), opt_str_json(&d.profile_dir)));
    let ghost e = seq![
        ("instance_id"@, JsonV::Str(d.id@)),
        ("host"@, JsonV::Str(d.host@)),
        ("port"@, JsonV::Number(NumberV::PosInt(d.port as u64))),
        ("profile_dir"@, opt_str_jv(opt_chars(d.profile_dir))),
    ];
    object_of(m, Ghost(e))
}

/// What closing an instance asks of the caller.
pub enum CloseInstance<S> {
    /// Stop the default instance; its registration is kept.
    StopDefault,
    /// Stop this session, which was removed from the registry.
    Stop(S),
    /// No such instance; the message.
    Missing(String),
}

/// The note of the answer to closing the default instance.
pub open spec fn default_kept_note() -> Seq<char> {
    "The default instance is stopped but kept; it is re-created lazily on the next tool call."@
}

impl CloseInstanceTool {
    /// Closes an instance: the default one is only stopped and stays
    /// registered; any other one is removed from the registry and handed
    /// back to be stopped.
    pub fn close<S>(&self, reg: &mut Registry<S>) -> (r: CloseInstance<S>)
        requires
            old(reg).wf(),
        ensures
            final(reg).wf(),
            match r {
                CloseInstance::StopDefault => self.instance_id@ == "default"@ && *final(reg) == *old(reg),
                CloseInstance::Stop(s) => {
                    &&& self.instance_id@ != "default"@
                    &&& old(reg).session_map().contains_key(self.instance_id@)
                    &&& s == old(reg).session_map()[self.instance_id@]
                    &&& final(reg).session_map() == old(reg).session_map().remove(self.instance_id@)
                    &&& final(reg).descriptor_map() == old(reg).descriptor_map().remove(self.instance_id@)
                },
                CloseInstance::Missing(m) => {
                    &&& self.instance_id@ != "default"@
                    &&& !old(reg).session_map().contains_key(self.instance_id@)
                    &&& m@ == "Instance '"@ + self.instance_id@ + "' not found."@
                    &&& final(reg).session_map() == old(reg).session_map()
                    &&& final(reg).descriptor_map() == old(reg).descriptor_map().remove(self.instance_id@)
                },
            },
    {
        if str_eq(self.instance_id.as_str(), "default") {
            return CloseInstance::StopDefault;
        }
        match reg.remove_session(self.instance_id.as_str()) {
            Some(s) => CloseInstance::Stop(s),
            None => CloseInstance::Missing(concat3("Instance '", self.instance_id.as_str(), "' not found.")),
        }
    }

    /// The answer once the default instance is stopped.
    pub fn default_stopped_report() -> (r: Json)
        ensures
            r@ == JsonV::Object(seq![
                ("instance_id"@, JsonV::Str("default"@)),
                ("stopped"@, JsonV::Bool(true)),
                ("removed_from_registry"@, JsonV::Bool(false)),
                ("note"@, JsonV::Str(default_kept_note())),
            ]),
    {
        let mut m: Vec<(String, Json)> = Vec::new();
        m.push(("instance_id".to_owned(), str_json("default")));
        m.push(("stopped".to_owned(), Json::Bool(true)));
        m.push(("removed_from_registry".to_owned(), Json::Bool(false)));
        m.push(("note".to_owned(), str_json("The default instance is stopped but kept; it is re-created lazily on the next tool call.")));
        let ghost e = seq![
            ("instance_id"@, JsonV::Str("default"@)),
            ("stopped"@, JsonV::Bool(true)),
            ("removed_from_registry"@, JsonV::Bool(false)),
            ("note"@, JsonV::Str(default_kept_note())),
        ];
        object_of(m, Ghost(e))
    }

    /// The answer once a removed instance is stopped.
    pub fn removed_report(&self) -> (r: Json)
        ensures
            r@ == JsonV::Object(seq![
                ("instance_id"@, JsonV::Str(self.instance_id@)),
                ("stopped"@, JsonV::Bool(true)),
                ("removed_from_registry"@, JsonV::Bool(true)),
            ]),
    {
        let mut m: Vec<(String, Json)> = Vec::new();
        m.push(("instance_id".to_owned(), str_json(self.instance_id.as_str())));
        m.push(("stopped".to_owned(), Json::Bool(true)));
        m.push(("removed_from_registry".to_owned(), Json::Bool(true)));
        let ghost e = seq![
            ("instance_id"@, JsonV::Str(self.instance_id@)),
            ("stopped"@, JsonV::Bool(true)),
            ("removed_from_registry"@, JsonV::Bool(true)),
        ];
        object_of(m, Ghost(e))
    }
}

} // verus!
