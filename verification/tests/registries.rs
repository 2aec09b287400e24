use chrome_debug_mcp::instance_tools::{opened_instance_report, CloseInstance, CloseInstanceTool, OpenInstanceTool};
use chrome_debug_mcp::instances::{default_descriptor, InstanceDescriptor, Registry, SessionLookup};
use chrome_debug_mcp::json::{parse_json, render, Json};
use chrome_debug_mcp::launch::ChromeFeature;
use chrome_debug_mcp::tab_tools::{CloseTabTool, OpenTabTool, SwitchTabTool};
use chrome_debug_mcp::tabs::{TabError, TabLookup, TabRegistry, TargetAction};

fn j(text: &str) -> Json {
    parse_json(text).unwrap()
}

fn descriptor(id: &str, label: Option<&str>) -> InstanceDescriptor {
    InstanceDescriptor {
        id: id.to_string(),
        label: label.map(|l| l.to_string()),
        host: "127.0.0.1".to_string(),
        port: 9300,
        profile_dir: None,
        features: vec![],
        is_default: false,
    }
}

#[test]
fn first_registered_tab_becomes_active_and_ids_count_up() {
    let mut reg: TabRegistry<u8> = TabRegistry::new(5);
    assert_eq!(reg.active_tab_id(), None);
    let a = reg.register_tab(1, "T1".to_string(), None, "about:blank".to_string()).unwrap();
    let b = reg.register_tab(2, "T2".to_string(), Some("docs".to_string()), "https://a".to_string()).unwrap();
    assert_eq!(a, "tab-1");
    assert_eq!(b, "tab-2");
    assert_eq!(reg.active_tab_id().as_deref(), Some("tab-1"));
    assert_eq!(reg.len(), 2);
    assert_eq!(reg.get("tab-2").unwrap().target_id, "T2");
}

#[test]
fn tab_limit_and_label_clash_are_refused() {
    let mut reg: TabRegistry<u8> = TabRegistry::new(2);
    reg.register_tab(1, "T1".to_string(), Some("x".to_string()), "u".to_string()).unwrap();
    let clash = reg.register_tab(2, "T2".to_string(), Some("x".to_string()), "u".to_string()).unwrap_err();
    assert_eq!(clash.message(), "Label 'x' is already in use by another tab");
    reg.register_tab(3, "T3".to_string(), None, "u".to_string()).unwrap();
    let full = reg.register_tab(4, "T4".to_string(), None, "u".to_string()).unwrap_err();
    assert_eq!(full.message(), "Tab limit reached (2)");
    assert!(matches!(full, TabError::LimitReached(2)));
    assert_eq!(reg.len(), 2);
}

#[test]
fn removing_the_active_tab_activates_the_first_remaining_one() {
    let mut reg: TabRegistry<u8> = TabRegistry::new(5);
    for i in 0..3u8 {
        reg.register_tab(i, format!("T{i}"), None, "u".to_string()).unwrap();
    }
    reg.switch_tab("tab-2").unwrap();
    let removed = reg.remove_tab("tab-2").unwrap();
    assert_eq!(removed.target_id, "T1");
    assert_eq!(reg.active_tab_id().as_deref(), Some("tab-1"));
    assert!(reg.remove_tab("tab-2").is_none());
    reg.remove_tab("tab-1").unwrap();
    reg.remove_tab("tab-3").unwrap();
    assert_eq!(reg.active_tab_id(), None);
    // numbering goes on after removals
    let next = reg.register_tab(9, "T9".to_string(), None, "u".to_string()).unwrap();
    assert_eq!(next, "tab-4");
}

#[test]
fn switching_to_an_unknown_tab_is_refused() {
    let mut reg: TabRegistry<u8> = TabRegistry::new(5);
    reg.register_tab(1, "T1".to_string(), None, "u".to_string()).unwrap();
    let e = reg.switch_tab("tab-7").unwrap_err();
    assert_eq!(e.message(), "Tab with ID 'tab-7' not found");
    assert_eq!(reg.active_tab_id().as_deref(), Some("tab-1"));
}

#[test]
fn clear_forgets_tabs_but_keeps_numbering() {
    let mut reg: TabRegistry<u8> = TabRegistry::new(5);
    reg.register_tab(1, "T1".to_string(), None, "u".to_string()).unwrap();
    reg.clear();
    assert_eq!(reg.len(), 0);
    assert_eq!(reg.active_tab_id(), None);
    assert_eq!(reg.register_tab(2, "T2".to_string(), None, "u".to_string()).unwrap(), "tab-2");
}

#[test]
fn target_events_attach_new_pages_and_forget_destroyed_ones() {
    let mut reg: TabRegistry<u8> = TabRegistry::new(5);
    let created = j(r#"{"targetInfo":{"targetId":"P1","type":"page","url":"https://x"}}"#);
    match reg.on_target_event(Some("Target.targetCreated"), Some(&created)) {
        TargetAction::Attach { target_id, url } => {
            assert_eq!(target_id, "P1");
            assert_eq!(url, "https://x");
        }
        _ => panic!("expected attach"),
    }
    reg.register_tab(1, "P1".to_string(), None, "https://x".to_string()).unwrap();
    // the same target again is not attached twice
    assert!(matches!(reg.on_target_event(Some("Target.targetCreated"), Some(&created)), TargetAction::Ignore));
    let worker = j(r#"{"targetInfo":{"targetId":"W","type":"service_worker","url":"https://x"}}"#);
    assert!(matches!(reg.on_target_event(Some("Target.targetCreated"), Some(&worker)), TargetAction::Ignore));
    let ext = j(r#"{"targetInfo":{"targetId":"E","type":"page","url":"chrome-extension://abc/p.html"}}"#);
    assert!(matches!(reg.on_target_event(Some("Target.targetCreated"), Some(&ext)), TargetAction::Ignore));
    let destroyed = j(r#"{"targetId":"P1"}"#);
    match reg.on_target_event(Some("Target.targetDestroyed"), Some(&destroyed)) {
        TargetAction::Forgot(id) => assert_eq!(id, "tab-1"),
        _ => panic!("expected forgot"),
    }
    assert_eq!(reg.len(), 0);
    assert!(matches!(reg.on_target_event(None, Some(&destroyed)), TargetAction::Ignore));
}

#[test]
fn commands_go_to_named_then_active_tab_then_default() {
    let mut reg: TabRegistry<u8> = TabRegistry::new(5);
    assert!(matches!(reg.lookup(None), TabLookup::Default));
    match reg.lookup(Some("tab-9")) {
        TabLookup::Missing(id) => assert_eq!(id, "tab-9"),
        _ => panic!("expected missing"),
    }
    reg.register_tab(1, "T1".to_string(), None, "u".to_string()).unwrap();
    reg.register_tab(2, "T2".to_string(), None, "u".to_string()).unwrap();
    match reg.lookup(None) {
        TabLookup::Tab(id) => assert_eq!(id, "tab-1"),
        _ => panic!("expected active tab"),
    }
    match reg.lookup(Some("tab-2")) {
        TabLookup::Tab(id) => assert_eq!(id, "tab-2"),
        _ => panic!("expected named tab"),
    }
    assert_eq!(
        chrome_debug_mcp::tabs::missing_target_message("tab-9"),
        "Tab with ID 'tab-9' not found in this session"
    );
    assert_eq!(chrome_debug_mcp::tabs::missing_state_message("tab-9"), "Tab 'tab-9' not found");
}

#[test]
fn listing_shows_tabs_in_order_or_a_note() {
    let mut reg: TabRegistry<u8> = TabRegistry::new(5);
    assert_eq!(
        render(&reg.listing()),
        render(&j(r#"{"active_tab_id":null,"tabs":[],"note":"No tabs registered in this session. Tools that omit 'tab_id' fall back to the instance's default single-tab connection."}"#))
    );
    reg.register_tab(1, "T1".to_string(), Some("a".to_string()), "https://a".to_string()).unwrap();
    reg.register_tab(2, "T2".to_string(), None, "https://b".to_string()).unwrap();
    assert_eq!(
        render(&reg.listing()),
        render(&j(r#"{"active_tab_id":"tab-1","tabs":[
            {"tab_id":"tab-1","label":"a","target_id":"T1","url":"https://a"},
            {"tab_id":"tab-2","label":null,"target_id":"T2","url":"https://b"}]}"#))
    );
}

#[test]
fn open_tab_checks_url_and_registers_under_label() {
    let tool = OpenTabTool { instance_id: None, url: None, label: Some("work".to_string()) };
    assert_eq!(tool.checked_url(false).unwrap(), "about:blank");
    // about:blank is no local address either
    assert_eq!(
        tool.checked_url(true).unwrap_err(),
        "Navigation to 'about:blank' is blocked by local-only restrictions."
    );
    let remote = OpenTabTool { instance_id: None, url: Some("https://example.com".to_string()), label: None };
    assert_eq!(
        remote.checked_url(true).unwrap_err(),
        "Navigation to 'https://example.com' is blocked by local-only restrictions."
    );
    assert_eq!(remote.checked_url(false).unwrap(), "https://example.com");
    let mut reg: TabRegistry<u8> = TabRegistry::new(1);
    let id = tool.register(&mut reg, 1, "T1".to_string(), "about:blank".to_string()).unwrap();
    assert_eq!(id, "tab-1");
    assert_eq!(reg.get("tab-1").unwrap().label.as_deref(), Some("work"));
    let e = remote.register(&mut reg, 2, "T2".to_string(), "x".to_string()).unwrap_err();
    assert_eq!(e, "Failed to register tab in registry: Tab limit reached (1)");
    assert_eq!(
        render(&tool.opened_report("tab-1", "T1", "about:blank")),
        render(&j(r#"{"tab_id":"tab-1","target_id":"T1","url":"about:blank","label":"work"}"#))
    );
}

#[test]
fn close_and_switch_tab_tools_report_their_outcome() {
    let mut reg: TabRegistry<u8> = TabRegistry::new(5);
    reg.register_tab(1, "T1".to_string(), None, "u".to_string()).unwrap();
    reg.register_tab(2, "T2".to_string(), None, "u".to_string()).unwrap();
    let sw = SwitchTabTool { instance_id: None, tab_id: "tab-2".to_string(), activate: None };
    assert_eq!(sw.switch(&mut reg), Ok(true));
    assert_eq!(reg.active_tab_id().as_deref(), Some("tab-2"));
    let quiet = SwitchTabTool { instance_id: None, tab_id: "tab-1".to_string(), activate: Some(false) };
    assert_eq!(quiet.switch(&mut reg), Ok(false));
    let bad = SwitchTabTool { instance_id: None, tab_id: "nope".to_string(), activate: None };
    assert_eq!(bad.switch(&mut reg).unwrap_err(), "Failed to switch tab: Tab with ID 'nope' not found");
    let close = CloseTabTool { instance_id: None, tab_id: "tab-1".to_string() };
    assert_eq!(close.close(&mut reg).unwrap().target_id, "T1");
    assert_eq!(reg.active_tab_id().as_deref(), Some("tab-2"));
    assert_eq!(close.close(&mut reg).err().unwrap(), "Tab ID 'tab-1' not found");
    assert_eq!(
        render(&close.closed_report(&reg.active_tab_id())),
        render(&j(r#"{"closed_tab_id":"tab-1","active_tab_id":"tab-2"}"#))
    );
}

#[test]
fn instance_registry_refuses_duplicates_labels_and_overflow() {
    let mut reg: Registry<u8> = Registry::new(2);
    reg.add_session(descriptor("a", Some("shop")), 1).unwrap();
    assert_eq!(reg.add_session(descriptor("a", None), 2).unwrap_err(), "Instance id 'a' already exists");
    assert_eq!(
        reg.add_session(descriptor("b", Some("shop")), 2).unwrap_err(),
        "Label 'shop' is already in use by instance 'a'"
    );
    reg.add_session(descriptor("b", None), 2).unwrap();
    assert_eq!(reg.add_session(descriptor("c", None), 3).unwrap_err(), "Instance limit reached (2)");
    assert_eq!(reg.get_session("b"), Some(&2));
    assert_eq!(reg.remove_session("a"), Some(1));
    assert_eq!(reg.get_session("a"), None);
    let ids: Vec<String> = reg.list_descriptors().into_iter().map(|d| d.id).collect();
    assert_eq!(ids, vec!["b".to_string()]);
}

#[test]
fn generated_instance_ids_count_up() {
    let mut reg: Registry<u8> = Registry::new(4);
    // "default" counts as the first instance
    assert_eq!(reg.generate_id(), "chrome-2");
    assert_eq!(reg.generate_id(), "chrome-3");
}

#[test]
fn default_session_is_added_lazily() {
    let mut reg: Registry<u8> = Registry::new(4);
    assert!(matches!(reg.lookup(None), SessionLookup::AddDefault));
    match reg.lookup(Some("x")) {
        SessionLookup::Missing(m) => assert_eq!(m, "Instance id 'x' not found. Valid instance ids: none"),
        _ => panic!("expected missing"),
    }
    reg.add_default(7, 9222, &[ChromeFeature::WebMcp]).unwrap();
    match reg.lookup(None) {
        SessionLookup::Found(id) => assert_eq!(id, "default"),
        _ => panic!("expected found"),
    }
    let d = default_descriptor(9222, &[ChromeFeature::WebMcp]);
    assert_eq!(d.id, "default");
    assert_eq!(d.host, "127.0.0.1");
    assert!(d.is_default);
    assert_eq!(d.features, vec!["WEB_MCP".to_string()]);
    let listed = reg.list_descriptors();
    assert_eq!(listed.len(), 1);
    assert!(listed[0].is_default);
}

#[test]
fn open_instance_prepares_a_secondary_launch() {
    let mut reg: Registry<u8> = Registry::new(4);
    let tool = OpenInstanceTool { label: None, headless: Some(true), proxy: Some("p:1".to_string()), features: Some(vec![ChromeFeature::WebglSoftware]) };
    let (id, params) = tool.prepare(&mut reg, false).unwrap();
    assert_eq!(id, "chrome-2");
    assert_eq!(params.host(), "127.0.0.1");
    assert_eq!(params.configured_port(), 0);
    assert!(params.headless());
    assert_eq!(params.proxy().as_deref(), Some("p:1"));
    let labelled = OpenInstanceTool { label: Some("shop".to_string()), headless: None, proxy: None, features: None };
    let (id2, _) = labelled.prepare(&mut reg, false).unwrap();
    assert_eq!(id2, "shop");
    reg.register_descriptor(descriptor("x", None));
    assert_eq!(
        labelled.prepare(&mut reg, true).err().unwrap(),
        "Cannot open multiple instances in --user-profile mode due to Chrome's profile lock"
    );
    let d = tool.descriptor("chrome-2".to_string(), 9400, Some("/tmp/p".to_string()), params.features());
    assert_eq!(d.features, vec!["WEBGL_SOFTWARE".to_string()]);
    assert_eq!(
        render(&opened_instance_report(&d)),
        render(&j(r#"{"instance_id":"chrome-2","host":"127.0.0.1","port":9400,"profile_dir":"/tmp/p"}"#))
    );
}

#[test]
fn close_instance_keeps_default_and_removes_others() {
    let mut reg: Registry<u8> = Registry::new(4);
    reg.add_session(descriptor("b", None), 2).unwrap();
    let def = CloseInstanceTool { instance_id: "default".to_string() };
    assert!(matches!(def.close(&mut reg), CloseInstance::StopDefault));
    let b = CloseInstanceTool { instance_id: "b".to_string() };
    assert!(matches!(b.close(&mut reg), CloseInstance::Stop(2)));
    match b.close(&mut reg) {
        CloseInstance::Missing(m) => assert_eq!(m, "Instance 'b' not found."),
        _ => panic!("expected missing"),
    }
    assert_eq!(
        render(&b.removed_report()),
        render(&j(r#"{"instance_id":"b","stopped":true,"removed_from_registry":true}"#))
    );
    assert_eq!(
        render(&CloseInstanceTool::default_stopped_report()),
        render(&j(r#"{"instance_id":"default","stopped":true,"removed_from_registry":false,"note":"The default instance is stopped but kept; it is re-created lazily on the next tool call."}"#))
    );
}

#[test]
fn unknown_instance_id_lists_the_valid_ids() {
    let mut reg: Registry<u8> = Registry::with_default(4, 9222, &[]);
    reg.add_session(descriptor("checkout", Some("checkout")), 2).unwrap();
    match reg.lookup(Some("typo")) {
        SessionLookup::Missing(m) => {
            assert!(m.contains("Instance id 'typo' not found"));
            assert_eq!(m, "Instance id 'typo' not found. Valid instance ids: default, checkout");
        }
        _ => panic!("expected missing"),
    }
}

#[test]
fn open_instance_refuses_a_label_in_use_before_launching() {
    let mut reg: Registry<u8> = Registry::with_default(4, 9222, &[]);
    let tool = OpenInstanceTool { label: Some("checkout".to_string()), headless: None, proxy: None, features: None };
    let (id, _) = tool.prepare(&mut reg, false).unwrap();
    reg.add_session(tool.descriptor(id, 9300, None, &[]), 2).unwrap();
    assert!(reg.list_descriptors().iter().any(|d| d.id == "checkout"));
    let err = tool.prepare(&mut reg, false).err().unwrap();
    assert!(err.contains("already exists") || err.contains("already in use"));
    assert_eq!(err, "Instance id 'checkout' already exists");
    assert_eq!(reg.list_descriptors().iter().filter(|d| d.id == "checkout").count(), 1);
}

#[test]
fn open_instance_refuses_at_the_instance_limit_before_launching() {
    let mut reg: Registry<u8> = Registry::with_default(1, 9222, &[]);
    reg.add_default(1, 9222, &[]).unwrap();
    let tool = OpenInstanceTool { label: None, headless: None, proxy: None, features: None };
    let err = tool.prepare(&mut reg, false).err().unwrap();
    assert!(err.contains("limit reached"));
    assert_eq!(err, "Instance limit reached (1)");
    assert_eq!(reg.list_descriptors().len(), 1);
}

#[test]
fn open_tab_refuses_a_label_in_use_before_the_tab_is_opened() {
    let mut reg: TabRegistry<u8> = TabRegistry::new(4);
    let work = OpenTabTool { instance_id: None, url: None, label: Some("work".to_string()) };
    assert!(work.admission(&reg).is_ok());
    work.register(&mut reg, 1, "T1".to_string(), "about:blank".to_string()).unwrap();
    assert_eq!(
        work.admission(&reg).unwrap_err(),
        "Failed to register tab in registry: Label 'work' is already in use by another tab"
    );
    assert_eq!(reg.len(), 1);
    let other = OpenTabTool { instance_id: None, url: None, label: Some("play".to_string()) };
    assert!(other.admission(&reg).is_ok());
    let mut full: TabRegistry<u8> = TabRegistry::new(0);
    assert_eq!(other.admission(&full).unwrap_err(), "Failed to register tab in registry: Tab limit reached (0)");
    assert_eq!(full.len(), 0);
    let _ = &mut full;
}
