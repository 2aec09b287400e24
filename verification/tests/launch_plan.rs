use chrome_debug_mcp::launch::{describe_features, ChromeFeature, LaunchMode, LaunchParams, ProfileMode};

fn default_params() -> LaunchParams {
    LaunchParams::new("127.0.0.1".into(), 9222, false, true, false)
}

#[test]
fn given_secondary_params_when_planning_then_mode_is_launch_new_with_ephemeral_port() {
    let mut params = LaunchParams::new("127.0.0.1".into(), 9222, false, false, false);
    params.secondary = true;
    let plan = params.plan();
    assert_eq!(plan.mode, LaunchMode::LaunchNew);
    assert_eq!(params.resolve_port(), 0);
    assert_eq!(plan.profile, ProfileMode::Ephemeral);
}

#[test]
fn given_primary_params_on_local_host_when_planning_then_mode_is_auto() {
    let params = LaunchParams::new("127.0.0.1".into(), 9222, false, false, false);
    let plan = params.plan();
    assert_eq!(plan.mode, LaunchMode::Auto);
}

#[test]
fn given_local_host_when_planning_then_mode_is_auto() {
    for host in ["127.0.0.1", "localhost", "::1", "LOCALHOST"] {
        let params = LaunchParams::new(host.into(), 9222, false, false, false);
        assert_eq!(params.plan().mode, LaunchMode::Auto, "host {host} should map to Auto");
    }
}

#[test]
fn given_remote_host_when_planning_then_mode_is_attach_only() {
    for host in ["10.0.0.5", "192.168.1.1", "example.com", "host.docker.internal"] {
        let params = LaunchParams::new(host.into(), 9222, false, false, false);
        assert_eq!(params.plan().mode, LaunchMode::AttachOnly, "host {host} should map to AttachOnly");
    }
}

#[test]
fn given_user_profile_when_planning_then_profile_mode_is_user_default() {
    let params = LaunchParams::new("127.0.0.1".into(), 9222, false, false, true);
    assert_eq!(params.plan().profile, ProfileMode::UserDefault);
}

#[test]
fn given_managed_profile_when_planning_then_profile_is_ephemeral() {
    let params = default_params();
    let plan = params.plan();
    assert_eq!(plan.profile, ProfileMode::Ephemeral);
}

#[test]
fn given_automation_disabled_when_planning_then_disable_infobars_is_added() {
    let params = default_params();
    assert_eq!(params.plan().extra_args, vec!["--disable-infobars".to_string()]);
}

#[test]
fn given_automation_enabled_when_planning_then_no_extra_args() {
    let params = LaunchParams::new("127.0.0.1".into(), 9222, true, false, false);
    assert!(params.plan().extra_args.is_empty());
}

#[test]
fn given_proxy_set_when_building_config_then_port_accessor_matches_configured_port() {
    let mut params = default_params();
    params.set_proxy(Some("http://proxy.example.com:8080".to_string()));
    let _plan = params.plan();
    assert_eq!(params.configured_port(), 9222);
    assert_eq!(params.proxy().as_deref(), Some("http://proxy.example.com:8080"));
}

#[test]
fn given_web_mcp_feature_when_planning_then_its_switches_are_appended() {
    let mut params = default_params();
    params.set_features(vec![ChromeFeature::WebMcp]);
    assert_eq!(
        params.plan().extra_args,
        vec![
            "--disable-infobars".to_string(),
            "--enable-features=WebMCPTesting".to_string(),
            "--categoryExperimentalWebmcp=true".to_string(),
        ]
    );
}

#[test]
fn given_webgl_software_feature_when_planning_then_its_switches_are_appended() {
    let mut params = LaunchParams::new("127.0.0.1".into(), 9222, true, true, false);
    params.set_features(vec![ChromeFeature::WebglSoftware]);
    assert_eq!(
        params.plan().extra_args,
        vec![
            "--use-gl=angle".to_string(),
            "--use-angle=swiftshader".to_string(),
            "--enable-unsafe-swiftshader".to_string(),
        ]
    );
}

#[test]
fn given_several_features_when_planning_then_all_switches_are_present() {
    let mut params = default_params();
    params.set_features(vec![ChromeFeature::WebMcp, ChromeFeature::WebglSoftware]);
    let extra_args = params.plan().extra_args;
    for expected in ChromeFeature::WebMcp
        .switches()
        .iter()
        .chain(ChromeFeature::WebglSoftware.switches().iter())
    {
        assert!(extra_args.contains(&(*expected).to_string()), "{expected} must be present in {extra_args:?}");
    }
}

#[test]
fn given_repeated_feature_when_planning_then_switches_are_not_duplicated() {
    let mut params = default_params();
    params.set_features(vec![ChromeFeature::WebMcp, ChromeFeature::WebMcp]);
    let extra_args = params.plan().extra_args;
    let occurrences = extra_args.iter().filter(|a| *a == "--enable-features=WebMCPTesting").count();
    assert_eq!(occurrences, 1, "got {extra_args:?}");
}

#[test]
fn given_no_features_when_planning_then_no_feature_switches_are_added() {
    let params = default_params();
    assert_eq!(params.plan().extra_args, vec!["--disable-infobars".to_string()]);
}

#[test]
fn given_features_when_describing_then_names_are_joined() {
    assert_eq!(describe_features(&[]), "none");
    assert_eq!(describe_features(&[ChromeFeature::WebMcp, ChromeFeature::WebglSoftware]), "WEB_MCP, WEBGL_SOFTWARE");
}

#[test]
fn feature_names_match_the_published_presets() {
    assert_eq!(ChromeFeature::WebMcp.as_name(), "WEB_MCP");
    assert_eq!(ChromeFeature::WebglSoftware.as_name(), "WEBGL_SOFTWARE");
    assert_eq!(ChromeFeature::WebglSoftware.switches().len(), 3);
}

#[test]
fn planned_switches_have_no_repeats_even_with_every_preset_twice() {
    let mut params = default_params();
    params.set_features(vec![
        ChromeFeature::WebMcp,
        ChromeFeature::WebglSoftware,
        ChromeFeature::WebMcp,
        ChromeFeature::WebglSoftware,
    ]);
    let args = params.plan().extra_args;
    let mut seen = args.clone();
    seen.sort();
    seen.dedup();
    assert_eq!(seen.len(), args.len());
    assert_eq!(args.len(), 6);
}

#[test]
fn local_host_names_are_compared_without_case() {
    assert!(chrome_debug_mcp::launch::is_local_host("LocalHost"));
    assert!(chrome_debug_mcp::launch::is_local_host("  127.0.0.1 "));
    assert!(!chrome_debug_mcp::launch::is_local_host("127.0.0.2"));
}
