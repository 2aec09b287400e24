//! Launch planning: the capability presets a client may ask for, and how the
//! launch parameters decide the launch mode, the profile and the extra
//! command line switches.
use vstd::prelude::*;
use crate::console::join;
use crate::text::{chars_of, str_eq, trim, trimmed};
use vstd::string::*;

verus! {

/// Curated Chrome capability presets a client may request.  A closed set on
/// purpose: no arbitrary command line flag can be injected through it.
#[derive(Clone, Copy, Debug, PartialEq, Eq, Hash, Structural)]
pub enum ChromeFeature {
    /// The experimental WebMCP surface.
    WebMcp,
    /// Software (SwiftShader) WebGL for machines without a GPU.
    WebglSoftware,
}

/// The client-facing name of a preset.
pub open spec fn feature_name(f: ChromeFeature) -> Seq<char> {
    match f {
        ChromeFeature::WebMcp => "WEB_MCP"@,
        ChromeFeature::WebglSoftware => "WEBGL_SOFTWARE"@,
    }
}

/// The switches a preset expands to.
pub open spec fn feature_switches(f: ChromeFeature) -> Seq<Seq<char>> {
    match f {
        ChromeFeature::WebMcp => seq!["--enable-features=WebMCPTesting"@, "--categoryExperimentalWebmcp=true"@],
        ChromeFeature::WebglSoftware => seq!["--use-gl=angle"@, "--use-angle=swiftshader"@, "--enable-unsafe-swiftshader"@],
    }
}

impl ChromeFeature {
    /// The client-facing name of the preset, as the tool schema publishes it.
    pub fn as_name(self) -> (r: &'static str)
        ensures
            r@ == feature_name(self),
    {
        match self {
            ChromeFeature::WebMcp => "WEB_MCP",
            ChromeFeature::WebglSoftware => "WEBGL_SOFTWARE",
        }
    }

    /// The Chrome switches the preset expands to.
    pub fn switches(self) -> (r: Vec<&'static str>)
        ensures
            r@.map_values(|s: &str| s@) == feature_switches(self),
    {
        let mut r: Vec<&'static str> = Vec::new();
        match self {
            ChromeFeature::WebMcp => {
                r.push("--enable-features=WebMCPTesting");
                r.push("--categoryExperimentalWebmcp=true");
            },
            ChromeFeature::WebglSoftware => {
                r.push("--use-gl=angle");
                r.push("--use-angle=swiftshader");
                r.push("--enable-unsafe-swiftshader");
            },
        }
        assert(r@.map_values(|s: &str| s@) =~= feature_switches(self));
        r
    }
}

/// How the browser is reached.
#[derive(Clone, Copy, Debug, PartialEq, Eq, Structural)]
pub enum LaunchMode {
    /// Attach when the port answers, launch otherwise.
    Auto,
    /// Always launch a new browser.
    LaunchNew,
    /// Only attach to a running browser.
    AttachOnly,
}

/// Which profile the browser runs with.
#[derive(Clone, Copy, Debug, PartialEq, Eq, Structural)]
pub enum ProfileMode {
    /// A fresh profile, removed when the browser stops.
    Ephemeral,
    /// The user's own default profile.
    UserDefault,
}

/// The outcome of planning a launch.
pub struct LaunchPlan {
    pub mode: LaunchMode,
    pub profile: ProfileMode,
    pub extra_args: Vec<String>,
}

/// The parameters of a managed browser.
pub struct LaunchParams {
    host: String,
    port: u16,
    headless: bool,
    enable_automation: bool,
    pub user_profile: bool,
    pub secondary: bool,
    proxy: Option<String>,
    features: Vec<ChromeFeature>,
}

/// ASCII lower case of one character.
pub open spec fn ascii_lower(c: char) -> char {
    if 'A' <= c <= 'Z' { ((c as int) + 32) as char } else { c }
}

/// `a.eq_ignore_ascii_case(b)`.
pub open spec fn eq_ignore_ascii_case(a: Seq<char>, b: Seq<char>) -> bool {
    a.len() == b.len() && forall|i: int| 0 <= i < a.len() ==> ascii_lower(#[trigger] a[i]) == ascii_lower(b[i])
}

/// A host counts as this machine: a loopback address, or `localhost` in any
/// ASCII case, surrounding white space ignored.
pub open spec fn names_local_host(host: Seq<char>) -> bool {
    let h = trimmed(host);
    h == "127.0.0.1"@ || h == "::1"@ || h == "[::1]"@ || eq_ignore_ascii_case(h, "localhost"@)
}

/// The switches of a list of presets, in order.
pub open spec fn all_switches(fs: Seq<ChromeFeature>) -> Seq<Seq<char>>
    decreases fs.len(),
{
    if fs.len() == 0 {
        Seq::empty()
    } else {
        all_switches(fs.drop_last()) + feature_switches(fs.last())
    }
}

/// `acc` with `ss` appended, each switch only if not already present.
pub open spec fn push_new(acc: Seq<Seq<char>>, ss: Seq<Seq<char>>) -> Seq<Seq<char>>
    decreases ss.len(),
{
    if ss.len() == 0 {
        acc
    } else {
        let a = push_new(acc, ss.drop_last());
        if a.contains(ss.last()) { a } else { a.push(ss.last()) }
    }
}

/// `a.eq_ignore_ascii_case(b)`.
pub fn eq_ignore_ascii_case_str(a: &str, b: &str) -> (r: bool)
    ensures
        r == eq_ignore_ascii_case(a@, b@),
{
    let x = chars_of(a);
    let y = chars_of(b);
    if x.len() != y.len() {
        return false;
    }
    let mut i: usize = 0;
    while i < x.len()
        invariant
            x@ == a@,
            y@ == b@,
            x@.len() == y@.len(),
            i <= x@.len(),
            forall|j: int| 0 <= j < i ==> ascii_lower(#[trigger] a@[j]) == ascii_lower(b@[j]),
        decreases x@.len() - i,
    {
        let cx = x[i];
        let cy = y[i];
        let lx: char = if 'A' <= cx && cx <= 'Z' { ((cx as u32) + 32) as u8 as char } else { cx };
        let ly: char = if 'A' <= cy && cy <= 'Z' { ((cy as u32) + 32) as u8 as char } else { cy };
        assert(lx == ascii_lower(cx)) by {
            if 'A' <= cx && cx <= 'Z' {
                assert(((cx as u32) + 32) as u8 as char == ((cx as int) + 32) as char);
            }
        }
        assert(ly == ascii_lower(cy)) by {
            if 'A' <= cy && cy <= 'Z' {
                assert(((cy as u32) + 32) as u8 as char == ((cy as int) + 32) as char);
            }
        }
        if lx != ly {
            return false;
        }
        i = i + 1;
    }
    true
}

/// Whether a host is this machine.
pub fn is_local_host(host: &str) -> (b: bool)
    ensures
        b == names_local_host(host@),
{
    let h = trim(host);
    str_eq(h, "127.0.0.1") || str_eq(h, "::1") || str_eq(h, "[::1]") || eq_ignore_ascii_case_str(h, "localhost")
}

/// Whether a list of switches holds a switch.
fn holds(v: &Vec<String>, s: &str) -> (b: bool)
    ensures
        b == v@.map_values(|x: String| x@).contains(s@),
{
    let ghost vv = v@.map_values(|x: String| x@);
    let mut i: usize = 0;
    while i < v.len()
        invariant
            i <= v@.len(),
            vv == v@.map_values(|x: String| x@),
            forall|j: int| 0 <= j < i ==> v@[j]@ != s@,
        decreases v@.len() - i,
    {
        if str_eq(v[i].as_str(), s) {
            assert(vv[i as int] == s@);
            return true;
        }
        i = i + 1;
    }
    proof {
        if vv.contains(s@) {
            let j = choose|j: int| 0 <= j < vv.len() && vv[j] == s@;
            assert(v@[j]@ == s@);
        }
    }
    false
}

impl LaunchParams {
    /// The switches added beyond the presets: `--disable-infobars` unless
    /// automation is enabled.
    pub open spec fn base_args(&self) -> Seq<Seq<char>> {
        if self.automation_view() { Seq::empty() } else { seq!["--disable-infobars"@] }
    }

    /// The extra switches of a plan: the base switches, then every preset's
    /// switches in order, each switch once.
    pub open spec fn planned_args(&self) -> Seq<Seq<char>> {
        push_new(self.base_args(), all_switches(self.features_view()))
    }

    /// The configured host.
    pub closed spec fn host_view(&self) -> Seq<char> { self.host@ }

    /// Whether the user's own profile is used.
    pub closed spec fn user_profile_view(&self) -> bool { self.user_profile }

    /// Whether this is a secondary instance.
    pub closed spec fn secondary_view(&self) -> bool { self.secondary }

    /// The configured port.
    pub closed spec fn port_view(&self) -> u16 { self.port }

    /// Whether the browser is configured headless.
    pub closed spec fn headless_view(&self) -> bool { self.headless }

    /// Whether automation mode is configured.
    pub closed spec fn automation_view(&self) -> bool { self.enable_automation }

    /// The configured presets.
    pub closed spec fn features_view(&self) -> Seq<ChromeFeature> { self.features@ }

    /// The configured proxy.
    pub closed spec fn proxy_view(&self) -> Option<Seq<char>> {
        match self.proxy { Some(p) => Some(p@), None => None }
    }

    /// Parameters for the given host and port, as the primary instance, with
    /// no proxy and no presets.
    pub fn new(host: String, port: u16, enable_automation: bool, headless: bool, user_profile: bool) -> (p: LaunchParams)
        ensures
            p.host_view() == host@,
            p.port_view() == port,
            p.automation_view() == enable_automation,
            p.headless_view() == headless,
            p.user_profile_view() == user_profile,
            !p.secondary_view(),
            p.proxy_view() is None,
            p.features_view() == Seq::<ChromeFeature>::empty(),
    {
        LaunchParams { host, port, enable_automation, headless, user_profile, secondary: false, proxy: None, features: Vec::new() }
    }

    /// Replaces the presets.
    pub fn set_features(&mut self, features: Vec<ChromeFeature>)
        ensures
            final(self).features_view() == features@,
            final(self).host_view() == old(self).host_view(),
            final(self).port_view() == old(self).port_view(),
            final(self).automation_view() == old(self).automation_view(),
            final(self).headless_view() == old(self).headless_view(),
            final(self).user_profile_view() == old(self).user_profile_view(),
            final(self).secondary_view() == old(self).secondary_view(),
            final(self).proxy_view() == old(self).proxy_view(),
    {
        self.features = features;
    }

    /// Marks the parameters as those of a secondary instance, or not.
    pub fn set_secondary(&mut self, secondary: bool)
        ensures
            final(self).secondary_view() == secondary,
            final(self).features_view() == old(self).features_view(),
            final(self).host_view() == old(self).host_view(),
            final(self).port_view() == old(self).port_view(),
            final(self).automation_view() == old(self).automation_view(),
            final(self).headless_view() == old(self).headless_view(),
            final(self).user_profile_view() == old(self).user_profile_view(),
            final(self).proxy_view() == old(self).proxy_view(),
    {
        self.secondary = secondary;
    }

    /// The presets.
    pub fn features(&self) -> (r: &Vec<ChromeFeature>)
        ensures
            r@ == self.features_view(),
    {
        &self.features
    }

    /// Replaces the proxy.
    pub fn set_proxy(&mut self, proxy: Option<String>)
        ensures
            final(self).proxy_view() == match proxy { Some(p) => Some(p@), None => None::<Seq<char>> },
            final(self).features_view() == old(self).features_view(),
            final(self).host_view() == old(self).host_view(),
            final(self).port_view() == old(self).port_view(),
            final(self).automation_view() == old(self).automation_view(),
            final(self).headless_view() == old(self).headless_view(),
            final(self).user_profile_view() == old(self).user_profile_view(),
            final(self).secondary_view() == old(self).secondary_view(),
    {
        self.proxy = proxy;
    }

    /// The proxy.
    pub fn proxy(&self) -> (r: &Option<String>)
        ensures
            match r { Some(p) => self.proxy_view() == Some(p@), None => self.proxy_view() is None },
    {
        &self.proxy
    }

    /// The host.
    pub fn host(&self) -> (r: &String)
        ensures
            r@ == self.host_view(),
    {
        &self.host
    }

    /// The port as configured.
    pub fn configured_port(&self) -> (r: u16)
        ensures
            r == self.port_view(),
    {
        self.port
    }

    /// Whether the browser runs headless.
    pub fn headless(&self) -> (r: bool)
        ensures
            r == self.headless_view(),
    {
        self.headless
    }

    /// Whether automation mode is enabled.
    pub fn enable_automation(&self) -> (r: bool)
        ensures
            r == self.automation_view(),
    {
        self.enable_automation
    }

    /// The port to launch on: 0 (any free port) for a secondary instance.
    pub fn resolve_port(&self) -> (r: u16)
        ensures
            r == if self.secondary_view() { 0 } else { self.port_view() },
    {
        if self.secondary { 0 } else { self.port }
    }

    /// Plans the launch: a secondary instance always launches anew, a local
    /// host attaches or launches, a remote host is only attached to; the
    /// user's profile when asked for, a fresh one otherwise; and the extra
    /// switches.
    pub fn plan(&self) -> (p: LaunchPlan)
        ensures
            p.mode == plan_mode_of(*self),
            p.profile == plan_profile_of(*self),
            p.extra_args@.map_values(|s: String| s@) == self.planned_args(),
    {
        let mode = if self.secondary {
            LaunchMode::LaunchNew
        } else if is_local_host(self.host.as_str()) {
            LaunchMode::Auto
        } else {
            LaunchMode::AttachOnly
        };
        let profile = if self.user_profile { ProfileMode::UserDefault } else { ProfileMode::Ephemeral };
        let mut extra_args: Vec<String> = Vec::new();
        if !self.enable_automation {
            extra_args.push("--disable-infobars".to_owned());
        }
        assert(extra_args@.map_values(|s: String| s@) =~= self.base_args());
        let ghost fs = self.features_view();
        assert(all_switches(fs.take(0)) =~= Seq::<Seq<char>>::empty()) by {
            assert(fs.take(0) =~= Seq::<ChromeFeature>::empty());
        }
        let mut i: usize = 0;
        while i < self.features.len()
            invariant
                i <= fs.len(),
                fs == self.features@,
                fs == self.features_view(),
                extra_args@.map_values(|s: String| s@) == push_new(self.base_args(), all_switches(fs.take(i as int))),
            decreases fs.len() - i,
        {
            let sw = self.features[i].switches();
            let ghost sv = sw@.map_values(|s: &str| s@);
            let ghost done = all_switches(fs.take(i as int));
            let mut j: usize = 0;
            assert(done + sv.take(0) =~= done);
            while j < sw.len()
                invariant
                    j <= sw@.len(),
                    sv == sw@.map_values(|s: &str| s@),
                    extra_args@.map_values(|s: String| s@) == push_new(self.base_args(), done + sv.take(j as int)),
                decreases sw@.len() - j,
            {
                let s = sw[j];
                let ghost before = extra_args@.map_values(|s: String| s@);
                assert((done + sv.take(j + 1)).drop_last() =~= done + sv.take(j as int));
                assert((done + sv.take(j + 1)).last() == s@);
                if !holds(&extra_args, s) {
                    extra_args.push(s.to_owned());
                    assert(extra_args@.map_values(|s: String| s@) =~= before.push(s@));
                }
                j = j + 1;
            }
            proof {
                assert(sv.take(sw@.len() as int) =~= sv);
                assert(fs.take(i + 1).drop_last() =~= fs.take(i as int));
                assert(fs.take(i + 1).last() == fs[i as int]);
            }
            i = i + 1;
        }
        assert(fs.take(fs.len() as int) =~= fs);
        LaunchPlan { mode, profile, extra_args }
    }
}

/// The launch mode parameters call for: a secondary instance is always
/// launched anew, a local host is attached to or launched, a remote host
/// only attached to.
pub open spec fn plan_mode_of(p: LaunchParams) -> LaunchMode {
    if p.secondary_view() {
        LaunchMode::LaunchNew
    } else if names_local_host(p.host_view()) {
        LaunchMode::Auto
    } else {
        LaunchMode::AttachOnly
    }
}

/// The profile parameters call for: the user's own, or a fresh one.
pub open spec fn plan_profile_of(p: LaunchParams) -> ProfileMode {
    if p.user_profile_view() { ProfileMode::UserDefault } else { ProfileMode::Ephemeral }
}

/// The names of presets, in order.
pub fn feature_names(features: &[ChromeFeature]) -> (r: Vec<String>)
    ensures
        r@.map_values(|s: String| s@) == features@.map_values(|f: ChromeFeature| feature_name(f)),
{
    let mut names: Vec<String> = Vec::new();
    let mut i: usize = 0;
    while i < features.len()
        invariant
            i <= features@.len(),
            names@.map_values(|s: String| s@) == features@.take(i as int).map_values(|f: ChromeFeature| feature_name(f)),
        decreases features@.len() - i,
    {
        let ghost before = names@.map_values(|s: String| s@);
        let nm = features[i].as_name().to_owned();
        names.push(nm);
        assert(names@.map_values(|s: String| s@) =~= before.push(feature_name(features@[i as int])));
        assert(features@.take(i + 1).map_values(|f: ChromeFeature| feature_name(f)) =~= features@.take(i as int).map_values(|f: ChromeFeature| feature_name(f)).push(feature_name(features@[i as int])));
        i = i + 1;
    }
    assert(features@.take(features@.len() as int) =~= features@);
    names
}

/// The names of presets, as a restart reports them: `none`, or the names
/// joined by `, `.
pub open spec fn described_features(fs: Seq<ChromeFeature>) -> Seq<char> {
    if fs.len() == 0 { "none"@ } else { join(fs.map_values(|f: ChromeFeature| feature_name(f)), ", "@) }
}

/// Describes presets for a restart's answer.
pub fn describe_features(features: &[ChromeFeature]) -> (r: String)
    ensures
        r@ == described_features(features@),
{
    if features.len() == 0 {
        return "none".to_owned();
    }
    let names = feature_names(features);
    crate::console::join_texts(&names, ", ")
}


/// Appending only new switches to a list without repeats leaves no repeats,
/// and keeps every switch offered.
proof fn lemma_push_new(acc: Seq<Seq<char>>, ss: Seq<Seq<char>>)
    requires
        acc.no_duplicates(),
    ensures
        push_new(acc, ss).no_duplicates(),
        forall|x: Seq<char>| #[trigger] acc.contains(x) ==> push_new(acc, ss).contains(x),
        forall|i: int| 0 <= i < ss.len() ==> push_new(acc, ss).contains(#[trigger] ss[i]),
    decreases ss.len(),
{
    if ss.len() > 0 {
        let rest = ss.drop_last();
        lemma_push_new(acc, rest);
        let a = push_new(acc, rest);
        if !a.contains(ss.last()) {
            assert forall|i: int, j: int| 0 <= i < a.push(ss.last()).len() && 0 <= j < a.push(ss.last()).len() && i != j
                implies a.push(ss.last())[i] != a.push(ss.last())[j] by {
                if i == a.len() as int {
                    assert(a.push(ss.last())[j] == a[j]);
                } else if j == a.len() as int {
                    assert(a.push(ss.last())[i] == a[i]);
                }
            }
            assert forall|x: Seq<char>| #[trigger] a.contains(x) implies a.push(ss.last()).contains(x) by {
                let k = choose|k: int| 0 <= k < a.len() && a[k] == x;
                assert(a.push(ss.last())[k] == x);
            }
            assert(a.push(ss.last())[a.len() as int] == ss.last());
        }
        assert forall|i: int| 0 <= i < ss.len() implies push_new(acc, ss).contains(#[trigger] ss[i]) by {
            if i < ss.len() - 1 {
                assert(rest[i] == ss[i]);
            }
        }
    }
}

/// A plan names each switch once, and names every switch of every preset
/// asked for.
pub proof fn law_planned_switches(p: LaunchParams)
    ensures
        p.planned_args().no_duplicates(),
        forall|i: int, j: int| 0 <= i < p.features_view().len() && 0 <= j < feature_switches(p.features_view()[i]).len() ==>
            p.planned_args().contains(#[trigger] feature_switches(p.features_view()[i])[j]),
{
    lemma_all_switches(p.features_view());
    lemma_push_new(p.base_args(), all_switches(p.features_view()));
    assert forall|i: int, j: int| 0 <= i < p.features_view().len() && 0 <= j < feature_switches(p.features_view()[i]).len() implies
        p.planned_args().contains(#[trigger] feature_switches(p.features_view()[i])[j]) by {
        let s = feature_switches(p.features_view()[i])[j];
        let all = all_switches(p.features_view());
        let k = choose|k: int| 0 <= k < all.len() && all[k] == s;
        assert(p.planned_args().contains(all[k]));
    }
}

/// Every switch of every preset is among all the presets' switches.
proof fn lemma_all_switches(fs: Seq<ChromeFeature>)
    ensures
        forall|i: int, j: int| 0 <= i < fs.len() && 0 <= j < feature_switches(fs[i]).len() ==>
            all_switches(fs).contains(#[trigger] feature_switches(fs[i])[j]),
    decreases fs.len(),
{
    if fs.len() > 0 {
        let rest = fs.drop_last();
        lemma_all_switches(rest);
        let a = all_switches(rest);
        let last = feature_switches(fs.last());
        assert forall|i: int, j: int| 0 <= i < fs.len() && 0 <= j < feature_switches(fs[i]).len() implies
            all_switches(fs).contains(#[trigger] feature_switches(fs[i])[j]) by {
            if i < fs.len() - 1 {
                assert(rest[i] == fs[i]);
                let k = choose|k: int| 0 <= k < a.len() && a[k] == feature_switches(rest[i])[j];
                assert((a + last)[k] == a[k]);
            } else {
                assert((a + last)[a.len() + j] == last[j]);
            }
        }
    }
}

} // verus!
