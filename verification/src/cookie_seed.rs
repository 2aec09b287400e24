//! Seeding a fresh browser profile with the cookies of the user's own
//! Chrome: where the user's profiles live, which profile and cookie database
//! to take, the `os_crypt` key to carry over, and the desktop session
//! variables the seeded browser needs to decrypt them.
use vstd::prelude::*;
use crate::console::{join, join_texts};
use crate::json::{json_get, json_pretty_text, member_views_of, lemma_member_views_of, opt_get, opt_str, parse_json, parsed_json, render_pretty, Json, JsonV};
use crate::text::{concat3, decimal, ends_with, starts_with, str_eq, u64_to_decimal};

verus! {

/// The operating system whose conventions apply.
#[derive(Clone, Copy, Debug, PartialEq, Eq, Structural)]
pub enum Os {
    Linux,
    Mac,
    Windows,
}

/// The environment as the seeding reads it: the operating system and the
/// variables that are set, by name.
pub struct EnvSnapshot {
    pub os: Os,
    pub vars: Vec<(String, String)>,
}

/// The value of the first variable named `name`.
pub open spec fn var_of(vars: Seq<(String, String)>, name: Seq<char>) -> Option<Seq<char>>
    decreases vars.len(),
{
    if vars.len() == 0 {
        None
    } else if vars[0].0@ == name {
        Some(vars[0].1@)
    } else {
        var_of(vars.drop_first(), name)
    }
}

impl EnvSnapshot {
    /// The value of a variable.
    pub open spec fn var_view(&self, name: Seq<char>) -> Option<Seq<char>> {
        var_of(self.vars@, name)
    }

    /// The value of a variable.
    pub fn var(&self, name: &str) -> (r: Option<String>)
        ensures
            match r {
                Some(v) => self.var_view(name@) == Some(v@),
                None => self.var_view(name@) is None,
            },
    {
        let mut i: usize = 0;
        assert(self.vars@.subrange(0, self.vars@.len() as int) =~= self.vars@);
        while i < self.vars.len()
            invariant
                i <= self.vars@.len(),
                var_of(self.vars@, name@) == var_of(self.vars@.subrange(i as int, self.vars@.len() as int), name@),
            decreases self.vars@.len() - i,
        {
            let ghost rest = self.vars@.subrange(i as int, self.vars@.len() as int);
            assert(rest[0] == self.vars@[i as int]);
            if str_eq(self.vars[i].0.as_str(), name) {
                return Some(self.vars[i].1.clone());
            }
            assert(rest.drop_first() =~= self.vars@.subrange(i + 1, self.vars@.len() as int));
            i = i + 1;
        }
        None
    }
}

/// `Path::join` as it behaves with `/` separators: an absolute `b` replaces
/// `a`; otherwise `b` follows `a`, with a `/` between them unless `a` is
/// empty or already ends with one.
pub open spec fn join_path(a: Seq<char>, b: Seq<char>) -> Seq<char> {
    if b.len() > 0 && b[0] == '/' {
        b
    } else if a.len() == 0 || a.last() == '/' {
        a + b
    } else {
        a + seq!['/'] + b
    }
}

/// Joins two paths, as `Path::join` does with `/` separators.
pub fn join_paths(a: &str, b: &str) -> (r: String)
    ensures
        r@ == join_path(a@, b@),
{
    let ca = crate::text::chars_of(a);
    let cb = crate::text::chars_of(b);
    if cb.len() > 0 && cb[0] == '/' {
        return b.to_owned();
    }
    if ca.len() == 0 || ca[ca.len() - 1] == '/' {
        proof { reveal_strlit(""); }
        let r = concat3(a, b, "");
        assert(r@ =~= a@ + b@);
        return r;
    }
    let r = concat3(a, "/", b);
    proof {
        reveal_strlit("/");
    }
    r
}

/// The directories where the user's Chrome and Chromium profiles live.
pub open spec fn roots_of(os: Os, env: EnvSnapshot) -> Seq<Seq<char>> {
    match os {
        Os::Linux => {
            (match env.var_view("XDG_CONFIG_HOME"@) {
                Some(c) => seq![join_path(c, "google-chrome"@)],
                None => Seq::empty(),
            }) + (match env.var_view("HOME"@) {
                Some(h) => seq![
                    join_path(h, ".config/google-chrome"@),
                    join_path(h, ".config/chromium"@),
                    join_path(h, "snap/chromium/common/chromium"@),
                ],
                None => Seq::empty(),
            })
        },
        Os::Mac => match env.var_view("HOME"@) {
            Some(h) => seq![
                join_path(h, "Library/Application Support/Google/Chrome"@),
                join_path(h, "Library/Application Support/Chromium"@),
            ],
            None => Seq::empty(),
        },
        Os::Windows => match env.var_view("LOCALAPPDATA"@) {
            Some(l) => seq![
                join_path(join_path(join_path(l, "Google"@), "Chrome"@), "User Data"@),
                join_path(join_path(l, "Chromium"@), "User Data"@),
            ],
            None => Seq::empty(),
        },
    }
}

/// The candidate profile roots, in the order they are searched.
pub fn source_roots(os: Os, env: &EnvSnapshot) -> (r: Vec<String>)
    ensures
        r@.map_values(|s: String| s@) == roots_of(os, *env),
{
    let mut roots: Vec<String> = Vec::new();
    match os {
        Os::Linux => {
            match env.var("XDG_CONFIG_HOME") {
                Some(c) => roots.push(join_paths(c.as_str(), "google-chrome")),
                None => {},
            }
            match env.var("HOME") {
                Some(h) => {
                    roots.push(join_paths(h.as_str(), ".config/google-chrome"));
                    roots.push(join_paths(h.as_str(), ".config/chromium"));
                    roots.push(join_paths(h.as_str(), "snap/chromium/common/chromium"));
                },
                None => {},
            }
        },
        Os::Mac => {
            match env.var("HOME") {
                Some(h) => {
                    roots.push(join_paths(h.as_str(), "Library/Application Support/Google/Chrome"));
                    roots.push(join_paths(h.as_str(), "Library/Application Support/Chromium"));
                },
                None => {},
            }
        },
        Os::Windows => {
            match env.var("LOCALAPPDATA") {
                Some(l) => {
                    let g = join_paths(l.as_str(), "Google");
                    let gc = join_paths(g.as_str(), "Chrome");
                    roots.push(join_paths(gc.as_str(), "User Data"));
                    let c = join_paths(l.as_str(), "Chromium");
                    roots.push(join_paths(c.as_str(), "User Data"));
                },
                None => {},
            }
        },
    }
    assert(roots@.map_values(|s: String| s@) =~= roots_of(os, *env));
    roots
}

/// The variables the seeded browser needs to reach the desktop secret
/// store, for those not already set: `XDG_RUNTIME_DIR` (from the
/// environment, else `/run/user/<uid>`) and the D-Bus session address under
/// it.  Only Linux needs them.
pub open spec fn session_env_of(env: EnvSnapshot, uid: Option<u32>) -> Seq<(Seq<char>, Seq<char>)> {
    if env.os != Os::Linux {
        Seq::empty()
    } else {
        let runtime_dir = match env.var_view("XDG_RUNTIME_DIR"@) {
            Some(d) => Some(d),
            None => match uid {
                Some(id) => Some("/run/user/"@ + decimal(id as nat)),
                None => None,
            },
        };
        match runtime_dir {
            Some(dir) => {
                (if env.var_view("XDG_RUNTIME_DIR"@) is None { seq![("XDG_RUNTIME_DIR"@, dir)] } else { Seq::empty() })
                + (if env.var_view("DBUS_SESSION_BUS_ADDRESS"@) is None {
                    seq![("DBUS_SESSION_BUS_ADDRESS"@, "unix:path="@ + dir + "/bus"@)]
                } else {
                    Seq::empty()
                })
            },
            None => Seq::empty(),
        }
    }
}

/// The missing desktop session variables, given the environment and the
/// user id of the process.
pub fn desktop_session_env_with(env: &EnvSnapshot, uid: Option<u32>) -> (r: Vec<(String, String)>)
    ensures
        r@.map_values(|p: (String, String)| (p.0@, p.1@)) == session_env_of(*env, uid),
{
    let mut vars: Vec<(String, String)> = Vec::new();
    if env.os != Os::Linux {
        assert(vars@.map_values(|p: (String, String)| (p.0@, p.1@)) =~= session_env_of(*env, uid));
        return vars;
    }
    let from_env = env.var("XDG_RUNTIME_DIR");
    let runtime_dir = match &from_env {
        Some(d) => Some(d.clone()),
        None => match uid {
            Some(id) => {
                let n = u64_to_decimal(id as u64);
                Some(concat3("/run/user/", n.as_str(), ""))
            },
            None => None,
        },
    };
    proof { reveal_strlit(""); }
    match &runtime_dir {
        Some(dir) => {
            if from_env.is_none() {
                vars.push(("XDG_RUNTIME_DIR".to_owned(), dir.clone()));
            }
            if env.var("DBUS_SESSION_BUS_ADDRESS").is_none() {
                vars.push(("DBUS_SESSION_BUS_ADDRESS".to_owned(), concat3("unix:path=", dir.as_str(), "/bus")));
            }
        },
        None => {},
    }
    assert(vars@.map_values(|p: (String, String)| (p.0@, p.1@)) =~= session_env_of(*env, uid));
    vars
}

/// The refusal of a cookie import the server was not started to allow.
pub open spec fn import_disabled_text() -> Seq<char> {
    "Cookie import is disabled. Restart the MCP server with the '--allow-cookie-import' argument to enable it."@
}

/// The refusal of a cookie import in user-profile mode.
pub open spec fn import_redundant_text() -> Seq<char> {
    "Cookie import is redundant when running in --user-profile mode, as the user's real profile is already in use."@
}

/// A cookie import that passed the server's checks: the profile to take the
/// cookies from, when one was named.
#[derive(Debug)]
pub struct SeedRequest {
    pub source_profile: Option<String>,
}

/// Checks a cookie-import request against the server's configuration:
/// nothing to do when it was not asked for; refused when the server does not
/// allow imports, or runs on the user's own profile; otherwise the seeding
/// to carry out.
pub fn prepare_seed_report(requested: bool, source_profile: Option<&str>, allow_cookie_import: bool, user_profile: bool) -> (r: Result<Option<SeedRequest>, String>)
    ensures
        !requested ==> (r matches Ok(None)),
        requested && !allow_cookie_import ==> (r matches Err(e) && e@ == import_disabled_text()),
        requested && allow_cookie_import && user_profile ==> (r matches Err(e) && e@ == import_redundant_text()),
        requested && allow_cookie_import && !user_profile ==> (r matches Ok(Some(s))
            && match (s.source_profile, source_profile) {
                (Some(a), Some(b)) => a@ == b@,
                (None, None) => true,
                _ => false,
            }),
{
    if !requested {
        return Ok(None);
    }
    if !allow_cookie_import {
        return Err("Cookie import is disabled. Restart the MCP server with the '--allow-cookie-import' argument to enable it.".to_owned());
    }
    if user_profile {
        return Err("Cookie import is redundant when running in --user-profile mode, as the user's real profile is already in use.".to_owned());
    }
    let source_profile = match source_profile {
        Some(p) => Some(p.to_owned()),
        None => None,
    };
    Ok(Some(SeedRequest { source_profile }))
}


/// What the seeding reads of the file system.
pub trait FsProbe {
    /// Something exists at the path.
    spec fn exists_at(&self, path: Seq<char>) -> bool;

    /// A file exists at the path.
    spec fn is_file_at(&self, path: Seq<char>) -> bool;

    /// The text of the file at the path, when it can be read.
    spec fn text_at(&self, path: Seq<char>) -> Option<Seq<char>>;

    /// Whether something exists at the path.
    fn path_exists(&self, path: &str) -> (b: bool)
        ensures
            b == self.exists_at(path@);

    /// Whether a file exists at the path.
    fn is_file(&self, path: &str) -> (b: bool)
        ensures
            b == self.is_file_at(path@);

    /// The text of the file at the path.
    fn read_to_string(&self, path: &str) -> (r: Option<String>)
        ensures
            match r {
                Some(t) => self.text_at(path@) == Some(t@),
                None => self.text_at(path@) is None,
            };
}

/// A fixed picture of a file system: the paths of its files and the texts
/// of the files that can be read.
pub struct FsSnapshot {
    pub files: Vec<String>,
    pub texts: Vec<(String, String)>,
}

/// The text stored for the first entry at the path.
pub open spec fn text_of(texts: Seq<(String, String)>, path: Seq<char>) -> Option<Seq<char>> {
    var_of(texts, path)
}

impl FsSnapshot {
    /// The path is one of the listed files.
    pub open spec fn listed(&self, path: Seq<char>) -> bool {
        exists|i: int| 0 <= i < self.files@.len() && #[trigger] self.files@[i]@ == path
    }
}

impl FsProbe for FsSnapshot {
    open spec fn exists_at(&self, path: Seq<char>) -> bool {
        self.listed(path) || text_of(self.texts@, path) is Some
    }

    open spec fn is_file_at(&self, path: Seq<char>) -> bool {
        self.listed(path) || text_of(self.texts@, path) is Some
    }

    open spec fn text_at(&self, path: Seq<char>) -> Option<Seq<char>> {
        text_of(self.texts@, path)
    }

    fn path_exists(&self, path: &str) -> (b: bool) {
        self.is_file(path)
    }

    fn is_file(&self, path: &str) -> (b: bool) {
        let mut i: usize = 0;
        while i < self.files.len()
            invariant
                i <= self.files@.len(),
                forall|j: int| 0 <= j < i ==> #[trigger] self.files@[j]@ != path@,
            decreases self.files@.len() - i,
        {
            if str_eq(self.files[i].as_str(), path) {
                return true;
            }
            i = i + 1;
        }
        self.read_to_string(path).is_some()
    }

    fn read_to_string(&self, path: &str) -> (r: Option<String>) {
        let mut i: usize = 0;
        assert(self.texts@.subrange(0, self.texts@.len() as int) =~= self.texts@);
        while i < self.texts.len()
            invariant
                i <= self.texts@.len(),
                var_of(self.texts@, path@) == var_of(self.texts@.subrange(i as int, self.texts@.len() as int), path@),
            decreases self.texts@.len() - i,
        {
            let ghost rest = self.texts@.subrange(i as int, self.texts@.len() as int);
            assert(rest[0] == self.texts@[i as int]);
            if str_eq(self.texts[i].0.as_str(), path) {
                return Some(self.texts[i].1.clone());
            }
            assert(rest.drop_first() =~= self.texts@.subrange(i + 1, self.texts@.len() as int));
            i = i + 1;
        }
        None
    }
}

/// The profile named `profile.last_used` in a `Local State` text.
pub open spec fn last_used_of(text: Option<Seq<char>>) -> Option<Seq<char>> {
    match text {
        Some(t) => match parsed_json(t) {
            Ok(j) => opt_str(opt_get(json_get(j, "profile"@), "last_used"@)),
            Err(_) => None,
        },
        None => None,
    }
}

/// The profile to take cookies from: the one asked for, else the last used
/// one that the root's `Local State` names, else `Default`.
pub open spec fn profile_of<F: FsProbe>(fs: F, root: Seq<char>, requested: Option<Seq<char>>) -> Seq<char> {
    match requested {
        Some(p) => p,
        None => match last_used_of(fs.text_at(join_path(root, "Local State"@))) {
            Some(u) => u,
            None => "Default"@,
        },
    }
}

/// The characters of an optional text.
pub open spec fn opt_text(o: Option<&str>) -> Option<Seq<char>> {
    match o {
        Some(s) => Some(s@),
        None => None,
    }
}

/// Picks the profile to take cookies from.
pub fn pick_profile<F: FsProbe>(root: &str, override_profile: Option<&str>, fs: &F) -> (r: String)
    ensures
        r@ == profile_of(*fs, root@, opt_text(override_profile)),
{
    match override_profile {
        Some(p) => return p.to_owned(),
        None => {},
    }
    let path = join_paths(root, "Local State");
    match fs.read_to_string(path.as_str()) {
        Some(content) => match parse_json(content.as_str()) {
            Ok(j) => {
                let p = j.get("profile");
                match crate::json::str_in(crate::json::get_in(p, "last_used")) {
                    Some(u) => return u.to_owned(),
                    None => {},
                }
            },
            Err(_) => {},
        },
        None => {},
    }
    "Default".to_owned()
}

/// The cookie database of a profile: `<profile>/Network/Cookies` (current
/// layouts) when it is a file, else `<profile>/Cookies` (older ones).
pub open spec fn cookie_db_of<F: FsProbe>(fs: F, root: Seq<char>, profile: Seq<char>) -> Option<Seq<char>> {
    let dir = join_path(root, profile);
    let net = join_path(join_path(dir, "Network"@), "Cookies"@);
    let old = join_path(dir, "Cookies"@);
    if fs.is_file_at(net) {
        Some(net)
    } else if fs.is_file_at(old) {
        Some(old)
    } else {
        None
    }
}

/// Finds the cookie database of a profile.
pub fn locate_cookies_db<F: FsProbe>(root: &str, profile: &str, fs: &F) -> (r: Option<String>)
    ensures
        match r {
            Some(p) => cookie_db_of(*fs, root@, profile@) == Some(p@),
            None => cookie_db_of(*fs, root@, profile@) is None,
        },
{
    let dir = join_paths(root, profile);
    let net_dir = join_paths(dir.as_str(), "Network");
    let net = join_paths(net_dir.as_str(), "Cookies");
    if fs.is_file(net.as_str()) {
        return Some(net);
    }
    let old = join_paths(dir.as_str(), "Cookies");
    if fs.is_file(old.as_str()) {
        return Some(old);
    }
    None
}

/// Where cookies were found: the profile root and the profile in it.
pub struct CookieSource {
    pub root: String,
    pub profile: String,
}

/// What the search notes of a root: nothing when its profile has a cookie
/// database, else why it was passed over.
pub open spec fn root_note<F: FsProbe>(fs: F, root: Seq<char>, requested: Option<Seq<char>>) -> Option<Seq<char>> {
    if !fs.exists_at(root) {
        Some("Root not found: "@ + root)
    } else {
        let p = profile_of(fs, root, requested);
        if cookie_db_of(fs, root, p) is Some {
            None
        } else {
            Some("Cookies DB not found in root: "@ + root + " (profile: "@ + p + ")"@)
        }
    }
}

/// The notes of the roots, in order.
pub open spec fn notes_of<F: FsProbe>(fs: F, roots: Seq<Seq<char>>, requested: Option<Seq<char>>) -> Seq<Seq<char>> {
    roots.map_values(|r: Seq<char>| root_note(fs, r, requested)->0)
}

/// The failure of a search, listing what was found at each root.
pub open spec fn no_source_text(notes: Seq<Seq<char>>) -> Seq<char> {
    "No Chrome profile with cookies found. Searched locations:\n  - "@ + join(notes, "\n  - "@)
}

/// Searches the profile roots in order for the first whose profile has a
/// cookie database; otherwise fails with what was found at each root.
pub fn resolve_source<F: FsProbe>(requested_profile: Option<&str>, env: &EnvSnapshot, fs: &F) -> (r: Result<CookieSource, String>)
    ensures
        ({
            let roots = roots_of(env.os, *env);
            let req = opt_text(requested_profile);
            match r {
                Ok(src) => exists|i: int| 0 <= i < roots.len()
                    && root_note(*fs, roots[i], req) is None
                    && (forall|j: int| 0 <= j < i ==> (#[trigger] root_note(*fs, roots[j], req)) is Some)
                    && src.root@ == roots[i]
                    && src.profile@ == profile_of(*fs, roots[i], req),
                Err(e) => (forall|j: int| 0 <= j < roots.len() ==> (#[trigger] root_note(*fs, roots[j], req)) is Some)
                    && e@ == no_source_text(notes_of(*fs, roots, req)),
            }
        }),
{
    let roots = source_roots(env.os, env);
    let ghost rv = roots@.map_values(|s: String| s@);
    let ghost req = opt_text(requested_profile);
    let mut searched: Vec<String> = Vec::new();
    let mut i: usize = 0;
    while i < roots.len()
        invariant
            rv == roots@.map_values(|s: String| s@),
            rv == roots_of(env.os, *env),
            req == opt_text(requested_profile),
            i <= roots@.len(),
            forall|j: int| 0 <= j < i ==> (#[trigger] root_note(*fs, rv[j], req)) is Some,
            searched@.map_values(|s: String| s@) == notes_of(*fs, rv.take(i as int), req),
        decreases roots@.len() - i,
    {
        let root = &roots[i];
        assert(rv[i as int] == root@);
        let ghost before = searched@.map_values(|s: String| s@);
        if !fs.path_exists(root.as_str()) {
            let note = concat3("Root not found: ", root.as_str(), "");
            proof { reveal_strlit(""); assert(note@ =~= "Root not found: "@ + root@); }
            searched.push(note);
        } else {
            let profile = pick_profile(root.as_str(), requested_profile, fs);
            match locate_cookies_db(root.as_str(), profile.as_str(), fs) {
                Some(_) => {
                    return Ok(CookieSource { root: root.clone(), profile });
                },
                None => {
                    let head = concat3("Cookies DB not found in root: ", root.as_str(), " (profile: ");
                    let note = concat3(head.as_str(), profile.as_str(), ")");
                    searched.push(note);
                },
            }
        }
        proof {
            assert(rv.take(i + 1) =~= rv.take(i as int).push(rv[i as int]));
            assert(notes_of(*fs, rv.take(i + 1), req) =~= notes_of(*fs, rv.take(i as int), req).push(root_note(*fs, rv[i as int], req)->0));
            assert(searched@.map_values(|s: String| s@) =~= before.push(root_note(*fs, rv[i as int], req)->0));
        }
        i = i + 1;
    }
    assert(rv.take(roots@.len() as int) =~= rv);
    let list = join_texts(&searched, "\n  - ");
    let msg = concat3("No Chrome profile with cookies found. Searched locations:\n  - ", list.as_str(), "");
    proof {
        reveal_strlit("");
        assert(msg@ =~= no_source_text(notes_of(*fs, rv, req)));
    }
    Err(msg)
}


/// `members` with the member `k` set to `v`: the first member named `k`
/// takes the value, or a new member is added at the end.
pub open spec fn set_member(ms: Seq<(Seq<char>, JsonV)>, k: Seq<char>, v: JsonV) -> Seq<(Seq<char>, JsonV)>
    decreases ms.len(),
{
    if ms.len() == 0 {
        seq![(k, v)]
    } else if ms[0].0 == k {
        ms.update(0, (k, v))
    } else {
        seq![ms[0]] + set_member(ms.drop_first(), k, v)
    }
}

proof fn lemma_set_member_at(ms: Seq<(Seq<char>, JsonV)>, k: Seq<char>, v: JsonV, i: int)
    requires
        0 <= i < ms.len(),
        ms[i].0 == k,
        forall|j: int| 0 <= j < i ==> #[trigger] ms[j].0 != k,
    ensures
        set_member(ms, k, v) == ms.update(i, (k, v)),
    decreases ms.len(),
{
    if i > 0 {
        let rest = ms.drop_first();
        assert forall|j: int| 0 <= j < i - 1 implies #[trigger] rest[j].0 != k by {
            assert(rest[j] == ms[j + 1]);
        }
        lemma_set_member_at(rest, k, v, i - 1);
        assert(seq![ms[0]] + rest.update(i - 1, (k, v)) =~= ms.update(i, (k, v)));
    }
}

proof fn lemma_set_member_absent(ms: Seq<(Seq<char>, JsonV)>, k: Seq<char>, v: JsonV)
    requires
        forall|j: int| 0 <= j < ms.len() ==> #[trigger] ms[j].0 != k,
    ensures
        set_member(ms, k, v) == ms.push((k, v)),
    decreases ms.len(),
{
    if ms.len() > 0 {
        let rest = ms.drop_first();
        assert forall|j: int| 0 <= j < rest.len() implies #[trigger] rest[j].0 != k by {
            assert(rest[j] == ms[j + 1]);
        }
        lemma_set_member_absent(rest, k, v);
        assert(seq![ms[0]] + rest.push((k, v)) =~= ms.push((k, v)));
    }
}

/// Sets a member of an object's member list.
fn set_member_in(input: Vec<(String, Json)>, k: &str, v: Json) -> (r: Vec<(String, Json)>)
    ensures
        member_views_of(r@) == set_member(member_views_of(input@), k@, v@),
{
    let mut members = input;
    let ghost mv = member_views_of(members@);
    proof { lemma_member_views_of(members@); }
    let mut i: usize = 0;
    while i < members.len()
        invariant
            i <= members@.len(),
            mv == member_views_of(members@),
            mv == member_views_of(input@),
            mv.len() == members@.len(),
            forall|j: int| 0 <= j < members@.len() ==> #[trigger] mv[j] == (members@[j].0@, members@[j].1@),
            forall|j: int| 0 <= j < i ==> #[trigger] mv[j].0 != k@,
        decreases members@.len() - i,
    {
        if str_eq(members[i].0.as_str(), k) {
            proof { lemma_set_member_at(mv, k@, v@, i as int); }
            let ghost vv = v@;
            members.set(i, (k.to_owned(), v));
            proof {
                lemma_member_views_of(members@);
                assert(member_views_of(members@) =~= mv.update(i as int, (k@, vv)));
                assert(member_views_of(members@) == set_member(mv, k@, vv));
            }
            return members;
        }
        i = i + 1;
    }
    proof { lemma_set_member_absent(mv, k@, v@); }
    let ghost vv = v@;
    members.push((k.to_owned(), v));
    proof {
        lemma_member_views_of(members@);
        assert(member_views_of(members@) =~= mv.push((k@, vv)));
    }
    members
}

/// The `Local State` a seeded profile starts with: the destination's
/// content (an empty object when there is none or it is not JSON) with the
/// source's `os_crypt` member, when the source has one and the destination
/// is an object.
pub open spec fn merged_local_state(src: Seq<char>, dst: Option<Seq<char>>) -> JsonV {
    let s = match parsed_json(src) {
        Ok(j) => j,
        Err(_) => JsonV::Null,
    };
    let d = match dst {
        Some(t) => match parsed_json(t) {
            Ok(j) => j,
            Err(_) => JsonV::Object(Seq::empty()),
        },
        None => JsonV::Object(Seq::empty()),
    };
    match (json_get(s, "os_crypt"@), d) {
        (Some(c), JsonV::Object(ms)) => JsonV::Object(set_member(ms, "os_crypt"@, c)),
        _ => d,
    }
}

/// Carries the `os_crypt` member of one `Local State` text into another.
pub fn merge_os_crypt(src_local_state: &str, dst_local_state: Option<&str>) -> (r: Json)
    ensures
        r@ == merged_local_state(src_local_state@, opt_text(dst_local_state)),
{
    let src_json = match parse_json(src_local_state) {
        Ok(j) => j,
        Err(_) => Json::Null,
    };
    let dst_json = match dst_local_state {
        Some(t) => match parse_json(t) {
            Ok(j) => j,
            Err(_) => Json::empty_object(),
        },
        None => Json::empty_object(),
    };
    match src_json.get("os_crypt") {
        Some(c) => match dst_json {
            Json::Object(members) => {
                let merged = set_member_in(members, "os_crypt", c.duplicate());
                Json::Object(merged)
            },
            other => other,
        },
        None => dst_json,
    }
}

/// The refusal to seed from a source whose cookie database is gone.
pub open spec fn missing_db_text(src: CookieSource) -> Seq<char> {
    "Cookies DB not found for profile '"@ + src.profile@ + "' at '"@ + src.root@ + "'"@
}

/// The cookie database of the source, which must still be there.
pub fn cookie_db_for<F: FsProbe>(source: &CookieSource, fs: &F) -> (r: Result<String, String>)
    ensures
        match r {
            Ok(p) => cookie_db_of(*fs, source.root@, source.profile@) == Some(p@),
            Err(e) => cookie_db_of(*fs, source.root@, source.profile@) is None && e@ == missing_db_text(*source),
        },
{
    match locate_cookies_db(source.root.as_str(), source.profile.as_str(), fs) {
        Some(p) => Ok(p),
        None => {
            let head = concat3("Cookies DB not found for profile '", source.profile.as_str(), "' at '");
            Err(concat3(head.as_str(), source.root.as_str(), "'"))
        },
    }
}

/// The part of `path` below the directory `base`, as `Path::strip_prefix`
/// gives it for a path joined onto `base`.
pub open spec fn below(path: Seq<char>, base: Seq<char>) -> Option<Seq<char>> {
    if path == base {
        Some(Seq::empty())
    } else if starts_with(path, base + seq!['/']) {
        Some(path.subrange(base.len() + 1 as int, path.len() as int))
    } else if base.len() > 0 && base.last() == '/' && starts_with(path, base) {
        Some(path.subrange(base.len() as int, path.len() as int))
    } else {
        None
    }
}

/// The part of a path below a directory.
fn below_dir(path: &str, base: &str) -> (r: Option<String>)
    ensures
        match r {
            Some(x) => below(path@, base@) == Some(x@),
            None => below(path@, base@) is None,
        },
{
    let p = crate::text::chars_of(path);
    let b = crate::text::chars_of(base);
    if str_eq(path, base) {
        return Some(String::new());
    }
    let with_sep = concat3(base, "/", "");
    proof { reveal_strlit("/"); reveal_strlit(""); assert(with_sep@ =~= base@ + seq!['/']); }
    let from: usize = if b.len() < p.len() && crate::text::starts_with_str(path, with_sep.as_str()) {
        b.len() + 1
    } else if b.len() > 0 && b[b.len() - 1] == '/' && crate::text::starts_with_str(path, base) {
        b.len()
    } else {
        return None;
    };
    let mut out = String::new();
    let mut i: usize = from;
    while i < p.len()
        invariant
            p@ == path@,
            from <= i <= p@.len(),
            out@ == path@.subrange(from as int, i as int),
        decreases p@.len() - i,
    {
        crate::text::push_char(&mut out, p[i]);
        assert(out@ =~= path@.subrange(from as int, i + 1));
        i = i + 1;
    }
    Some(out)
}

/// The directory part of a path, up to and with its last `/`.
pub open spec fn dir_part(p: Seq<char>) -> Seq<char>
    decreases p.len(),
{
    if p.len() == 0 {
        Seq::empty()
    } else if p.last() == '/' {
        p
    } else {
        dir_part(p.drop_last())
    }
}

/// `Path::with_file_name` for a path that ends in a file name: the last
/// component replaced by `name`.
pub open spec fn with_file_name(p: Seq<char>, name: Seq<char>) -> Seq<char> {
    dir_part(p) + name
}

/// Replaces the last component of a path.
fn replace_file_name(path: &str, name: &str) -> (r: String)
    ensures
        r@ == with_file_name(path@, name@),
{
    let p = crate::text::chars_of(path);
    let mut k: usize = p.len();
    assert(path@.take(p@.len() as int) =~= path@);
    while k > 0 && p[k - 1] != '/'
        invariant
            p@ == path@,
            k <= p@.len(),
            dir_part(path@) == dir_part(path@.take(k as int)),
        decreases k,
    {
        assert(path@.take(k as int).drop_last() =~= path@.take(k - 1));
        k = k - 1;
    }
    proof {
        if k > 0 {
            assert(path@.take(k as int).last() == '/');
        } else {
            assert(path@.take(0) =~= Seq::<char>::empty());
        }
    }
    let mut out = String::new();
    let mut i: usize = 0;
    while i < k
        invariant
            p@ == path@,
            k <= p@.len(),
            i <= k,
            out@ == path@.take(i as int),
        decreases k - i,
    {
        crate::text::push_char(&mut out, p[i]);
        assert(out@ =~= path@.take(i + 1));
        i = i + 1;
    }
    out.append(name);
    out
}

/// `Vec::dedup` on a sequence: each run of equal neighbours kept once.
pub open spec fn dedup_adjacent(s: Seq<Seq<char>>) -> Seq<Seq<char>>
    decreases s.len(),
{
    if s.len() <= 1 {
        s
    } else if s.last() == s[s.len() - 2] {
        dedup_adjacent(s.drop_last())
    } else {
        dedup_adjacent(s.drop_last()).push(s.last())
    }
}

/// Removes the repeats among neighbours.
fn dedup_paths(v: &Vec<String>) -> (r: Vec<String>)
    ensures
        r@.map_values(|s: String| s@) == dedup_adjacent(v@.map_values(|s: String| s@)),
{
    let ghost sv = v@.map_values(|s: String| s@);
    let mut r: Vec<String> = Vec::new();
    let mut i: usize = 0;
    assert(sv.take(0) =~= Seq::<Seq<char>>::empty());
    while i < v.len()
        invariant
            sv == v@.map_values(|s: String| s@),
            i <= v@.len(),
            r@.map_values(|s: String| s@) == dedup_adjacent(sv.take(i as int)),
        decreases v@.len() - i,
    {
        let ghost before = r@.map_values(|s: String| s@);
        let ghost t = sv.take(i + 1);
        assert(t.drop_last() =~= sv.take(i as int));
        if i == 0 || !str_eq(v[i].as_str(), v[i - 1].as_str()) {
            r.push(v[i].clone());
            proof {
                if i == 0 {
                    assert(t =~= seq![sv[0]]);
                    assert(r@.map_values(|s: String| s@) =~= t);
                } else {
                    assert(t.last() == sv[i as int] && t[t.len() - 2] == sv[i - 1]);
                    assert(r@.map_values(|s: String| s@) =~= before.push(sv[i as int]));
                }
            }
        } else {
            assert(t.last() == sv[i as int] && t[t.len() - 2] == sv[i - 1]);
        }
        i = i + 1;
    }
    assert(sv.take(v@.len() as int) =~= sv);
    r
}

/// The paths inside the seeded profile that receive the cookie database:
/// where the source keeps it, and both places Chrome may look for it,
/// repeats among neighbours dropped.
pub open spec fn copy_targets_of(db: Seq<char>, src: CookieSource, dst_default: Seq<char>) -> Seq<Seq<char>> {
    let first = match below(db, join_path(src.root@, src.profile@)) {
        Some(rel) => seq![join_path(dst_default, rel)],
        None => Seq::empty(),
    };
    dedup_adjacent(first + seq![
        join_path(dst_default, "Cookies"@),
        join_path(join_path(dst_default, "Network"@), "Cookies"@),
    ])
}

/// The journal and WAL files beside a database, for one target.
pub open spec fn sidecar_copy<F: FsProbe>(fs: F, db: Seq<char>, target: Seq<char>, suffix: Seq<char>) -> Seq<(Seq<char>, Seq<char>)> {
    let name = "Cookies"@ + suffix;
    let side = with_file_name(db, name);
    if fs.is_file_at(side) {
        seq![(side, with_file_name(target, name))]
    } else {
        Seq::empty()
    }
}

/// The sidecar copies for every target, target by target, in the order
/// `-journal`, `-wal`, `-shm`.
pub open spec fn sidecar_copies<F: FsProbe>(fs: F, db: Seq<char>, targets: Seq<Seq<char>>) -> Seq<(Seq<char>, Seq<char>)>
    decreases targets.len(),
{
    if targets.len() == 0 {
        Seq::empty()
    } else {
        let t = targets.last();
        sidecar_copies(fs, db, targets.drop_last())
            + sidecar_copy(fs, db, t, "-journal"@)
            + sidecar_copy(fs, db, t, "-wal"@)
            + sidecar_copy(fs, db, t, "-shm"@)
    }
}

/// The copies that seed a profile: the database to every target (each must
/// succeed), then the sidecar files that exist (best effort).
pub struct SeedPlan {
    pub copies: Vec<(String, String)>,
    pub sidecars: Vec<(String, String)>,
}

/// The models of pairs of paths.
pub open spec fn pairs_view(v: Seq<(String, String)>) -> Seq<(Seq<char>, Seq<char>)> {
    v.map_values(|p: (String, String)| (p.0@, p.1@))
}

/// Appends the sidecar copy for one suffix.
fn push_sidecar<F: FsProbe>(out: &mut Vec<(String, String)>, fs: &F, db: &str, target: &str, suffix: &str)
    ensures
        pairs_view(final(out)@) == pairs_view(old(out)@) + sidecar_copy(*fs, db@, target@, suffix@),
{
    let name = concat3("Cookies", suffix, "");
    proof { reveal_strlit(""); assert(name@ =~= "Cookies"@ + suffix@); }
    let side = replace_file_name(db, name.as_str());
    let ghost before = pairs_view(out@);
    if fs.is_file(side.as_str()) {
        let to = replace_file_name(target, name.as_str());
        out.push((side, to));
        assert(pairs_view(out@) =~= before + sidecar_copy(*fs, db@, target@, suffix@));
    } else {
        assert(pairs_view(out@) =~= before + sidecar_copy(*fs, db@, target@, suffix@));
    }
}

/// Plans the copies that seed the profile directory `dst_default` from the
/// source's cookie database `db`.
pub fn plan_seed<F: FsProbe>(source: &CookieSource, db: &str, dst_default: &str, fs: &F) -> (r: SeedPlan)
    ensures
        pairs_view(r.copies@) == copy_targets_of(db@, *source, dst_default@).map_values(|t: Seq<char>| (db@, t)),
        pairs_view(r.sidecars@) == sidecar_copies(*fs, db@, copy_targets_of(db@, *source, dst_default@)),
{
    let base = join_paths(source.root.as_str(), source.profile.as_str());
    let mut candidates: Vec<String> = Vec::new();
    match below_dir(db, base.as_str()) {
        Some(rel) => candidates.push(join_paths(dst_default, rel.as_str())),
        None => {},
    }
    candidates.push(join_paths(dst_default, "Cookies"));
    let net = join_paths(dst_default, "Network");
    candidates.push(join_paths(net.as_str(), "Cookies"));
    proof {
        let first = match below(db@, join_path(source.root@, source.profile@)) {
            Some(rel) => seq![join_path(dst_default@, rel)],
            None => Seq::<Seq<char>>::empty(),
        };
        assert(candidates@.map_values(|s: String| s@) =~= first + seq![
            join_path(dst_default@, "Cookies"@),
            join_path(join_path(dst_default@, "Network"@), "Cookies"@),
        ]);
    }
    let targets = dedup_paths(&candidates);
    let ghost tv = targets@.map_values(|s: String| s@);
    let mut copies: Vec<(String, String)> = Vec::new();
    let mut sidecars: Vec<(String, String)> = Vec::new();
    let mut i: usize = 0;
    assert(tv.take(0) =~= Seq::<Seq<char>>::empty());
    while i < targets.len()
        invariant
            tv == targets@.map_values(|s: String| s@),
            tv == copy_targets_of(db@, *source, dst_default@),
            i <= targets@.len(),
            pairs_view(copies@) == tv.take(i as int).map_values(|t: Seq<char>| (db@, t)),
            pairs_view(sidecars@) == sidecar_copies(*fs, db@, tv.take(i as int)),
        decreases targets@.len() - i,
    {
        let t = &targets[i];
        let ghost before = pairs_view(copies@);
        copies.push((db.to_owned(), t.clone()));
        proof {
            assert(tv.take(i + 1).drop_last() =~= tv.take(i as int));
            assert(tv.take(i + 1).last() == t@);
            assert(pairs_view(copies@) =~= before.push((db@, t@)));
            assert(tv.take(i + 1).map_values(|x: Seq<char>| (db@, x)) =~= tv.take(i as int).map_values(|x: Seq<char>| (db@, x)).push((db@, t@)));
        }
        push_sidecar(&mut sidecars, fs, db, t.as_str(), "-journal");
        push_sidecar(&mut sidecars, fs, db, t.as_str(), "-wal");
        push_sidecar(&mut sidecars, fs, db, t.as_str(), "-shm");
        i = i + 1;
    }
    assert(tv.take(targets@.len() as int) =~= tv);
    SeedPlan { copies, sidecars }
}

/// The `Local State` text for the seeded profile: the source's `os_crypt`
/// key in an otherwise empty state, printed indented; nothing when the
/// source root has no readable `Local State`.
pub fn local_state_seed<F: FsProbe>(root: &str, fs: &F) -> (r: Option<String>)
    ensures
        ({
            let path = join_path(root@, "Local State"@);
            match r {
                Some(t) => fs.is_file_at(path) && fs.text_at(path) is Some
                    && t@ == json_pretty_text(merged_local_state(fs.text_at(path)->0, None)),
                None => !(fs.is_file_at(path) && fs.text_at(path) is Some),
            }
        }),
{
    let path = join_paths(root, "Local State");
    if !fs.is_file(path.as_str()) {
        return None;
    }
    match fs.read_to_string(path.as_str()) {
        Some(content) => {
            let merged = merge_os_crypt(content.as_str(), None);
            Some(render_pretty(&merged))
        },
        None => None,
    }
}


proof fn lemma_dedup_keeps(s: Seq<Seq<char>>, x: Seq<char>)
    requires
        s.contains(x),
    ensures
        dedup_adjacent(s).contains(x),
    decreases s.len(),
{
    if s.len() > 1 {
        let d = dedup_adjacent(s.drop_last());
        if s.last() == x {
            if s.last() == s[s.len() - 2] {
                assert(s.drop_last()[s.len() - 2] == x);
                lemma_dedup_keeps(s.drop_last(), x);
            } else {
                assert(d.push(s.last())[d.len() as int] == x);
            }
        } else {
            let k = choose|k: int| 0 <= k < s.len() && s[k] == x;
            assert(s.drop_last()[k] == x);
            lemma_dedup_keeps(s.drop_last(), x);
            if s.last() != s[s.len() - 2] {
                let j = choose|j: int| 0 <= j < d.len() && d[j] == x;
                assert(d.push(s.last())[j] == x);
            }
        }
    }
}

/// The cookie database goes to both places Chrome may read it from, so the
/// seeded browser finds it whichever layout it uses.
pub proof fn law_seed_covers_both_layouts(db: Seq<char>, src: CookieSource, dst_default: Seq<char>)
    ensures
        copy_targets_of(db, src, dst_default).contains(join_path(dst_default, "Cookies"@)),
        copy_targets_of(db, src, dst_default).contains(join_path(join_path(dst_default, "Network"@), "Cookies"@)),
{
    let first = match below(db, join_path(src.root@, src.profile@)) {
        Some(rel) => seq![join_path(dst_default, rel)],
        None => Seq::<Seq<char>>::empty(),
    };
    let all = first + seq![
        join_path(dst_default, "Cookies"@),
        join_path(join_path(dst_default, "Network"@), "Cookies"@),
    ];
    assert(all[first.len() as int] == join_path(dst_default, "Cookies"@));
    assert(all[first.len() + 1int] == join_path(join_path(dst_default, "Network"@), "Cookies"@));
    lemma_dedup_keeps(all, join_path(dst_default, "Cookies"@));
    lemma_dedup_keeps(all, join_path(join_path(dst_default, "Network"@), "Cookies"@));
}

/// Where the seeding reads a root's `Local State`.
pub fn local_state_path(root: &str) -> (r: String)
    ensures
        r@ == join_path(root@, "Local State"@),
{
    join_paths(root, "Local State")
}

/// The files the seeding looks for below a root for a profile: the two
/// places of the cookie database, then the journal, WAL and shared-memory
/// files beside each.
pub open spec fn profile_probe_paths(root: Seq<char>, profile: Seq<char>) -> Seq<Seq<char>> {
    let dir = join_path(root, profile);
    let net = join_path(join_path(dir, "Network"@), "Cookies"@);
    let old = join_path(dir, "Cookies"@);
    seq![
        net,
        old,
        with_file_name(net, "Cookies-journal"@),
        with_file_name(net, "Cookies-wal"@),
        with_file_name(net, "Cookies-shm"@),
        with_file_name(old, "Cookies-journal"@),
        with_file_name(old, "Cookies-wal"@),
        with_file_name(old, "Cookies-shm"@),
    ]
}

/// The files to look for below a root for a profile.
pub fn probe_paths(root: &str, profile: &str) -> (r: Vec<String>)
    ensures
        r@.map_values(|s: String| s@) == profile_probe_paths(root@, profile@),
{
    let dir = join_paths(root, profile);
    let net_dir = join_paths(dir.as_str(), "Network");
    let net = join_paths(net_dir.as_str(), "Cookies");
    let old = join_paths(dir.as_str(), "Cookies");
    let mut r: Vec<String> = Vec::new();
    r.push(net.clone());
    r.push(old.clone());
    r.push(replace_file_name(net.as_str(), "Cookies-journal"));
    r.push(replace_file_name(net.as_str(), "Cookies-wal"));
    r.push(replace_file_name(net.as_str(), "Cookies-shm"));
    r.push(replace_file_name(old.as_str(), "Cookies-journal"));
    r.push(replace_file_name(old.as_str(), "Cookies-wal"));
    r.push(replace_file_name(old.as_str(), "Cookies-shm"));
    proof {
        reveal_strlit("Cookies-journal");
        reveal_strlit("Cookies-wal");
        reveal_strlit("Cookies-shm");
        assert(r@.map_values(|s: String| s@) =~= profile_probe_paths(root@, profile@));
    }
    r
}


/// Both Google Chrome's and Chromium's profiles are searched, Google
/// Chrome's first: on macOS under `HOME/Library/Application Support`, on
/// Windows under `LOCALAPPDATA`, each exactly these two; on Linux the user's
/// configuration directory holds both, after the XDG one when it is set.
pub proof fn law_searched_roots(env: EnvSnapshot)
    ensures
        env.var_view("HOME"@) matches Some(h) ==> roots_of(Os::Mac, env) == seq![
            join_path(h, "Library/Application Support/Google/Chrome"@),
            join_path(h, "Library/Application Support/Chromium"@),
        ],
        env.var_view("HOME"@) is None ==> roots_of(Os::Mac, env).len() == 0,
        env.var_view("LOCALAPPDATA"@) matches Some(l) ==> roots_of(Os::Windows, env) == seq![
            join_path(join_path(join_path(l, "Google"@), "Chrome"@), "User Data"@),
            join_path(join_path(l, "Chromium"@), "User Data"@),
        ],
        env.var_view("HOME"@) matches Some(h) ==> {
            let r = roots_of(Os::Linux, env);
            let off: int = if env.var_view("XDG_CONFIG_HOME"@) is Some { 1 } else { 0 };
            &&& r.len() == off + 3
            &&& r[off] == join_path(h, ".config/google-chrome"@)
            &&& r[off + 1] == join_path(h, ".config/chromium"@)
            &&& r[off + 2] == join_path(h, "snap/chromium/common/chromium"@)
        },
        env.var_view("XDG_CONFIG_HOME"@) matches Some(c) ==> roots_of(Os::Linux, env)[0] == join_path(c, "google-chrome"@),
{
}

} // verus!
