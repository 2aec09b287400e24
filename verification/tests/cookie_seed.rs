use chrome_debug_mcp::proc_status::uid_from_status;
use chrome_debug_mcp::cookie_seed::{local_state_path, probe_paths};
use chrome_debug_mcp::cookie_seed::{
    desktop_session_env_with, locate_cookies_db, merge_os_crypt, pick_profile, plan_seed, prepare_seed_report,
    resolve_source, source_roots, CookieSource, EnvSnapshot, FsSnapshot, Os,
};
use chrome_debug_mcp::json::Json;

fn env(os: Os, vars: &[(&str, &str)]) -> EnvSnapshot {
    EnvSnapshot { os, vars: vars.iter().map(|(k, v)| (k.to_string(), v.to_string())).collect() }
}

fn fs(files: &[&str], content: &[(&str, &str)]) -> FsSnapshot {
    FsSnapshot {
        files: files.iter().map(|f| f.to_string()).collect(),
        texts: content.iter().map(|(k, v)| (k.to_string(), v.to_string())).collect(),
    }
}

fn member<'a>(j: &'a Json, key: &str) -> &'a Json {
    j.get(key).unwrap_or_else(|| panic!("missing {key}"))
}

#[test]
fn given_linux_os_when_getting_source_roots_then_includes_xdg_and_home() {
    let e = env(Os::Linux, &[("XDG_CONFIG_HOME", "/custom/config"), ("HOME", "/home/testuser")]);
    let roots = source_roots(Os::Linux, &e);
    assert_eq!(roots[0], "/custom/config/google-chrome");
    assert_eq!(roots[1], "/home/testuser/.config/google-chrome");
}

#[test]
fn given_mac_os_when_getting_source_roots_then_includes_application_support() {
    let e = env(Os::Mac, &[("HOME", "/Users/testuser")]);
    let roots = source_roots(Os::Mac, &e);
    assert_eq!(roots[0], "/Users/testuser/Library/Application Support/Google/Chrome");
}

#[test]
fn given_windows_os_when_getting_source_roots_then_includes_localappdata() {
    let e = env(Os::Windows, &[("LOCALAPPDATA", r"C:\Users\test\AppData\Local")]);
    let roots = source_roots(Os::Windows, &e);
    let expected = std::path::PathBuf::from(r"C:\Users\test\AppData\Local")
        .join("Google")
        .join("Chrome")
        .join("User Data");
    assert_eq!(std::path::PathBuf::from(&roots[0]), expected);
}

#[test]
fn given_dbus_present_when_computing_desktop_env_then_nothing_is_injected() {
    let e = env(
        Os::Linux,
        &[("DBUS_SESSION_BUS_ADDRESS", "unix:path=/run/user/1000/bus"), ("XDG_RUNTIME_DIR", "/run/user/1000")],
    );
    let vars = desktop_session_env_with(&e, Some(1000));
    assert!(vars.is_empty(), "got {vars:?}");
}

#[test]
fn given_runtime_dir_present_when_computing_desktop_env_then_only_dbus_is_derived() {
    let e = env(Os::Linux, &[("XDG_RUNTIME_DIR", "/run/user/1000")]);
    let vars = desktop_session_env_with(&e, None);
    assert_eq!(
        vars,
        vec![("DBUS_SESSION_BUS_ADDRESS".to_string(), "unix:path=/run/user/1000/bus".to_string())]
    );
}

#[test]
fn given_nothing_present_when_computing_desktop_env_then_both_are_derived_from_uid() {
    let e = env(Os::Linux, &[]);
    let vars = desktop_session_env_with(&e, Some(1000));
    assert_eq!(
        vars,
        vec![
            ("XDG_RUNTIME_DIR".to_string(), "/run/user/1000".to_string()),
            ("DBUS_SESSION_BUS_ADDRESS".to_string(), "unix:path=/run/user/1000/bus".to_string()),
        ]
    );
}

#[test]
fn given_no_uid_when_computing_desktop_env_then_nothing_is_injected() {
    let e = env(Os::Linux, &[]);
    let vars = desktop_session_env_with(&e, None);
    assert!(vars.is_empty(), "got {vars:?}");
}

#[test]
fn desktop_env_is_empty_off_linux() {
    let e = env(Os::Mac, &[]);
    assert!(desktop_session_env_with(&e, Some(501)).is_empty());
}

#[test]
fn given_local_state_with_last_used_when_picking_profile_then_returns_last_used() {
    let f = fs(&[], &[("/root/Local State", r#"{"profile":{"last_used":"Profile 2"}}"#)]);
    assert_eq!(pick_profile("/root", None, &f), "Profile 2");
}

#[test]
fn given_override_profile_when_picking_profile_then_returns_override() {
    let f = fs(&[], &[]);
    assert_eq!(pick_profile("/root", Some("Profile 1"), &f), "Profile 1");
}

#[test]
fn given_no_last_used_when_picking_profile_then_defaults_to_default() {
    let f = fs(&[], &[]);
    assert_eq!(pick_profile("/root", None, &f), "Default");
}

#[test]
fn given_net_cookies_when_locating_cookies_db_then_finds_net_cookies() {
    let f = fs(&["/root/Default/Network/Cookies"], &[]);
    assert_eq!(locate_cookies_db("/root", "Default", &f), Some("/root/Default/Network/Cookies".to_string()));
}

#[test]
fn given_root_cookies_when_locating_cookies_db_then_finds_root_cookies() {
    let f = fs(&["/root/Default/Cookies"], &[]);
    assert_eq!(locate_cookies_db("/root", "Default", &f), Some("/root/Default/Cookies".to_string()));
}

#[test]
fn given_src_os_crypt_when_merging_os_crypt_then_inserts_into_dst() {
    let src = r#"{"os_crypt":{"encrypted_key":"ABC","selected_backend":"portal"}}"#;
    let merged = merge_os_crypt(src, None);
    let os_crypt = member(&merged, "os_crypt");
    assert_eq!(member(os_crypt, "encrypted_key").as_str(), Some("ABC"));
    assert_eq!(member(os_crypt, "selected_backend").as_str(), Some("portal"));
}

#[test]
fn merging_keeps_the_destination_and_replaces_its_key() {
    let src = r#"{"os_crypt":{"encrypted_key":"NEW"}}"#;
    let dst = r#"{"browser":{"x":1},"os_crypt":{"encrypted_key":"OLD"}}"#;
    let merged = merge_os_crypt(src, Some(dst));
    assert_eq!(member(member(&merged, "os_crypt"), "encrypted_key").as_str(), Some("NEW"));
    assert!(merged.get("browser").is_some());
    let not_json = merge_os_crypt("not json", None);
    assert!(not_json.is_object());
    assert!(not_json.get("os_crypt").is_none());
}

#[test]
fn given_valid_source_when_resolving_source_then_returns_cookie_source() {
    let e = env(Os::Linux, &[("HOME", "/home/test")]);
    let f = fs(
        &["/home/test/.config/google-chrome", "/home/test/.config/google-chrome/Default/Network/Cookies"],
        &[("/home/test/.config/google-chrome/Local State", r#"{"profile":{"last_used":"Default"}}"#)],
    );
    let source = resolve_source(None, &e, &f).unwrap();
    assert_eq!(source.root, "/home/test/.config/google-chrome");
    assert_eq!(source.profile, "Default");
}

#[test]
fn given_no_valid_source_when_resolving_source_then_returns_error_with_searched_paths() {
    let e = env(Os::Linux, &[("HOME", "/home/test")]);
    let f = fs(&[], &[]);
    let err = resolve_source(None, &e, &f).err().unwrap();
    assert!(err.contains("No Chrome profile with cookies found"));
    assert!(err.contains("/home/test/.config/google-chrome"));
    assert_eq!(
        err,
        "No Chrome profile with cookies found. Searched locations:\n  - Root not found: /home/test/.config/google-chrome\n  - Root not found: /home/test/.config/chromium\n  - Root not found: /home/test/snap/chromium/common/chromium"
    );
}

#[test]
fn resolving_reports_roots_without_a_cookie_database() {
    let e = env(Os::Linux, &[("HOME", "/h")]);
    let f = fs(&["/h/.config/google-chrome", "/h/.config/chromium", "/h/.config/chromium/Profile 3/Cookies"], &[]);
    let source = resolve_source(Some("Profile 3"), &e, &f).unwrap();
    assert_eq!(source.root, "/h/.config/chromium");
    assert_eq!(source.profile, "Profile 3");
    let err = resolve_source(Some("Other"), &e, &f).err().unwrap();
    assert!(err.contains("Cookies DB not found in root: /h/.config/google-chrome (profile: Other)"), "{err}");
}

#[test]
fn given_not_requested_when_preparing_seed_report_then_returns_none() {
    let report = prepare_seed_report(false, None, true, false).unwrap();
    assert!(report.is_none());
}

#[test]
fn given_import_disabled_when_preparing_seed_report_then_rejects() {
    let err = prepare_seed_report(true, None, false, false).err().unwrap();
    assert!(err.contains("Cookie import is disabled"), "{err}");
}

#[test]
fn given_user_profile_mode_when_preparing_seed_report_then_rejects() {
    let err = prepare_seed_report(true, None, true, true).err().unwrap();
    assert!(err.contains("--user-profile mode"), "{err}");
}

#[test]
fn an_allowed_import_names_its_source_profile() {
    let req = prepare_seed_report(true, Some("Profile 1"), true, false).unwrap().unwrap();
    assert_eq!(req.source_profile.as_deref(), Some("Profile 1"));
}

#[test]
fn seeding_copies_to_both_layouts_and_brings_sidecars() {
    let f = fs(&["/r/Default/Network/Cookies", "/r/Default/Network/Cookies-wal"], &[]);
    let src = CookieSource { root: "/r".to_string(), profile: "Default".to_string() };
    let plan = plan_seed(&src, "/r/Default/Network/Cookies", "/seed/Default", &f);
    let targets: Vec<&str> = plan.copies.iter().map(|(_, to)| to.as_str()).collect();
    assert_eq!(targets, vec!["/seed/Default/Network/Cookies", "/seed/Default/Cookies", "/seed/Default/Network/Cookies"]);
    assert!(plan.copies.iter().all(|(from, _)| from == "/r/Default/Network/Cookies"));
    assert_eq!(plan.sidecars.len(), 3);
    assert_eq!(plan.sidecars[1], ("/r/Default/Network/Cookies-wal".to_string(), "/seed/Default/Cookies-wal".to_string()));

    let f = fs(&["/r/Default/Cookies"], &[]);
    let plan = plan_seed(&src, "/r/Default/Cookies", "/seed/Default", &f);
    let targets: Vec<&str> = plan.copies.iter().map(|(_, to)| to.as_str()).collect();
    assert_eq!(targets, vec!["/seed/Default/Cookies", "/seed/Default/Network/Cookies"]);
    assert!(plan.sidecars.is_empty());
}

#[test]
fn the_uid_is_the_first_word_of_the_first_uid_line() {
    let status = "Name:\tcat\nUmask:\t0022\nUid:\t1000\t1000\t1000\t1000\nGid:\t100\n";
    assert_eq!(uid_from_status(status), Some(1000));
    assert_eq!(uid_from_status("Name: x\n"), None);
    assert_eq!(uid_from_status(""), None);
    assert_eq!(uid_from_status("Uid:\n"), None);
    assert_eq!(uid_from_status("Uid:\tabc\nUid:\t5\n"), None);
    assert_eq!(uid_from_status("XUid: 5\nUid: +7 8"), Some(7));
    assert_eq!(uid_from_status("Uid: 4294967296"), None);
    assert_eq!(uid_from_status("Uid:\u{a0}42\r\n"), Some(42));
}

#[test]
fn the_probed_paths_are_both_database_places_and_their_companions() {
    assert_eq!(local_state_path("/home/u/.config/google-chrome"), "/home/u/.config/google-chrome/Local State");
    assert_eq!(
        probe_paths("/r", "Profile 1"),
        vec![
            "/r/Profile 1/Network/Cookies",
            "/r/Profile 1/Cookies",
            "/r/Profile 1/Network/Cookies-journal",
            "/r/Profile 1/Network/Cookies-wal",
            "/r/Profile 1/Network/Cookies-shm",
            "/r/Profile 1/Cookies-journal",
            "/r/Profile 1/Cookies-wal",
            "/r/Profile 1/Cookies-shm",
        ]
    );
}
