use citinet_hub::tunnel_manager::{
    check_cloudflared, created_tunnel, hostname_from_url, ingress_accepted, launch_args,
    local_url, parse_quick_tunnel_url, pick_account, pick_zone, quick_start_outcome,
    record_accepted, tunnel_cname, watchdog_tick, zone_name,
    ChildPoll, CommandError, LaunchPlan, Supervisor, TunnelConfig, TunnelError, TunnelManager,
    TunnelState, UrlScan, VersionProbe, WatchdogDecision,
};

fn named_config(port: u16) -> TunnelConfig {
    TunnelManager::named_tunnel_config("tid", "tok", "home", "hub.example.org", port, "2024-01-01T00:00:00+00:00")
}

fn state_of(m: &TunnelManager) -> TunnelState {
    if m.is_running() {
        TunnelState::Running
    } else if m.get_config().is_some() {
        TunnelState::ConfiguredStopped
    } else {
        TunnelState::Unconfigured
    }
}

#[test]
fn quick_tunnel_url_is_found_in_the_banner() {
    assert_eq!(
        parse_quick_tunnel_url("2024-01-01T00:00:00Z INF |  https://blue-sky-123.trycloudflare.com  |\n"),
        Some("https://blue-sky-123.trycloudflare.com".to_string())
    );
    assert_eq!(
        parse_quick_tunnel_url("your url is: https://a-b.trycloudflare.com|||"),
        Some("https://a-b.trycloudflare.com".to_string())
    );
    assert_eq!(parse_quick_tunnel_url("INF Starting tunnel"), None);
    assert_eq!(parse_quick_tunnel_url("see https://developers.cloudflare.com/docs"), None);
    assert_eq!(parse_quick_tunnel_url(""), None);
    assert_eq!(
        parse_quick_tunnel_url("https://x.example trycloudflare.com"),
        Some("https://x.example".to_string())
    );
}

#[test]
fn hostname_is_the_url_without_scheme_and_slashes() {
    assert_eq!(hostname_from_url("https://a-b.trycloudflare.com/"), "a-b.trycloudflare.com");
    assert_eq!(hostname_from_url("https://https://x//"), "x");
    assert_eq!(hostname_from_url("http://x"), "http://x");
    assert_eq!(hostname_from_url(""), "");
}

#[test]
fn local_url_names_the_port() {
    assert_eq!(local_url(9090), "http://localhost:9090");
    assert_eq!(local_url(0), "http://localhost:0");
    assert_eq!(local_url(65535), "http://localhost:65535");
    assert_eq!(local_url(7), "http://localhost:7");
}

#[test]
fn launch_arguments() {
    let quick = LaunchPlan::Quick { local_url: "http://localhost:9090".to_string() };
    assert_eq!(launch_args(&quick, "ignored"), vec!["tunnel", "--url", "http://localhost:9090"]);
    let token = LaunchPlan::Token { token: "tok".to_string() };
    assert_eq!(launch_args(&token, "ignored"), vec!["tunnel", "run", "--token", "tok"]);
    assert_eq!(
        launch_args(&LaunchPlan::ConfigFile, "/data/config/tunnel.yml"),
        vec!["tunnel", "--config", "/data/config/tunnel.yml", "run"]
    );
}

#[test]
fn a_new_manager_never_runs() {
    let m = TunnelManager::new("/data", None);
    assert_eq!(state_of(&m), TunnelState::Unconfigured);
    assert_eq!(m.install_path(), "/data");
    let m = TunnelManager::new("/data", Some(named_config(9090)));
    assert_eq!(state_of(&m), TunnelState::ConfiguredStopped);
}

#[test]
fn start_needs_a_configuration() {
    let m = TunnelManager::new("/data", None);
    assert_eq!(m.start_tunnel(true).err(), Some(TunnelError::NotConfigured));
}

#[test]
fn start_plans_follow_the_mode() {
    let m = TunnelManager::new("/data", Some(named_config(9090)));
    match m.start_tunnel(false).unwrap() {
        LaunchPlan::Token { token } => assert_eq!(token, "tok"),
        other => panic!("unexpected plan {:?}", other),
    }

    let quick = TunnelManager::quick_tunnel_config("https://a.trycloudflare.com", 8080, "now").unwrap();
    assert_eq!(quick.tunnel_id, "quick");
    assert_eq!(quick.tunnel_name, "quick-tunnel");
    assert_eq!(quick.hostname, "a.trycloudflare.com");
    assert_eq!(quick.mode, "quick");
    assert_eq!(quick.tunnel_token, "");
    assert_eq!(quick.local_port, 8080);
    let m = TunnelManager::new("/data", Some(quick));
    match m.start_tunnel(false).unwrap() {
        LaunchPlan::Quick { local_url } => assert_eq!(local_url, "http://localhost:8080"),
        other => panic!("unexpected plan {:?}", other),
    }

    let legacy = TunnelManager::named_tunnel_config("tid", "", "home", "h.example.org", 9090, "now");
    let m = TunnelManager::new("/data", Some(legacy));
    assert_eq!(m.start_tunnel(false).err(), Some(TunnelError::ConfigFileMissing));
    assert!(matches!(m.start_tunnel(true), Ok(LaunchPlan::ConfigFile)));
}

#[test]
fn quick_tunnel_without_url_is_refused() {
    assert_eq!(
        TunnelManager::quick_tunnel_config("", 9090, "now").err(),
        Some(TunnelError::NoPublicUrl)
    );
}

#[test]
fn start_fails_while_running() {
    let mut m = TunnelManager::new("/data", Some(named_config(9090)));
    m.tunnel_started(None);
    assert_eq!(state_of(&m), TunnelState::Running);
    assert_eq!(m.start_tunnel(true).err(), Some(TunnelError::AlreadyRunning));
    assert_eq!(m.start_quick_tunnel(9090).err(), Some(TunnelError::AlreadyRunning));
}

#[test]
fn restarted_quick_tunnel_takes_its_new_hostname() {
    let quick = TunnelManager::quick_tunnel_config("https://a.trycloudflare.com", 9090, "now").unwrap();
    let mut m = TunnelManager::new("/data", Some(quick));
    m.tunnel_started(Some("b.trycloudflare.com"));
    assert_eq!(m.get_config().unwrap().hostname, "b.trycloudflare.com");
    m.stop_tunnel();
    m.tunnel_started(Some(""));
    assert_eq!(m.get_config().unwrap().hostname, "b.trycloudflare.com");

    let mut named = TunnelManager::new("/data", Some(named_config(9090)));
    named.tunnel_started(Some("other.example.org"));
    assert_eq!(named.get_config().unwrap().hostname, "hub.example.org");
}

#[test]
fn setup_leads_from_unconfigured_to_configured_stopped() {
    let mut m = TunnelManager::new("/data", None);
    let c = m.setup_tunnel(named_config(9090));
    assert_eq!(c.mode, "named");
    assert_eq!(c.tunnel_id, "tid");
    assert_eq!(c.hostname, "hub.example.org");
    assert_eq!(state_of(&m), TunnelState::ConfiguredStopped);
}

#[test]
fn stop_returns_whether_a_child_has_to_be_killed() {
    let mut m = TunnelManager::new("/data", Some(named_config(9090)));
    assert!(!m.stop_tunnel());
    m.tunnel_started(None);
    assert!(m.stop_tunnel());
    assert_eq!(state_of(&m), TunnelState::ConfiguredStopped);
}

#[test]
fn a_crash_shows_as_a_state_change() {
    let mut m = TunnelManager::new("/data", Some(named_config(9090)));
    m.tunnel_started(None);
    let s = m.get_status(ChildPoll::Alive);
    assert!(s.running && s.configured && s.error.is_none());
    assert_eq!(s.config.unwrap().tunnel_id, "tid");
    let s = m.get_status(ChildPoll::Exited);
    assert!(!s.running && s.configured && s.error.is_none());
    assert_eq!(state_of(&m), TunnelState::ConfiguredStopped);
    let s = m.get_status(ChildPoll::Alive);
    assert!(!s.running);

    m.tunnel_started(None);
    let s = m.get_status(ChildPoll::Failed);
    assert!(!s.running);
}

#[test]
fn watchdog_rule_table() {
    let d = |was, stopped, running, configured| watchdog_tick(was, stopped, running, configured);
    assert_eq!(d(true, true, false, true), WatchdogDecision { was_running: false, restart: false });
    assert_eq!(d(false, false, true, true), WatchdogDecision { was_running: true, restart: false });
    assert_eq!(d(true, false, false, true), WatchdogDecision { was_running: false, restart: true });
    assert_eq!(d(true, false, false, false), WatchdogDecision { was_running: true, restart: false });
    assert_eq!(d(false, false, false, true), WatchdogDecision { was_running: false, restart: false });
}

#[test]
fn killed_tunnel_is_restarted_within_one_tick() {
    let mut s = Supervisor::new();
    s.install(TunnelManager::new("/data", Some(named_config(9090))));
    assert!(s.start_tunnel(false).is_ok());
    s.tunnel_started(None);

    // The watchdog sees the tunnel running.
    assert!(!s.watchdog(ChildPoll::Alive));
    // The process is killed from outside.
    assert!(s.watchdog(ChildPoll::Exited));
    let status = s.get_status(ChildPoll::Exited);
    assert!(!status.running && status.configured);
    // The caller starts it again, as asked.
    assert!(s.start_tunnel(false).is_ok());
    s.tunnel_started(None);
    s.watchdog_restarted(true);
    let status = s.get_status(ChildPoll::Alive);
    assert!(status.running);
    assert!(!s.watchdog(ChildPoll::Alive));
}

#[test]
fn manual_stop_keeps_the_watchdog_away() {
    let mut s = Supervisor::new();
    s.install(TunnelManager::new("/data", Some(named_config(9090))));
    assert!(s.start_tunnel(false).is_ok());
    s.tunnel_started(None);
    assert!(!s.watchdog(ChildPoll::Alive));

    assert_eq!(s.stop_tunnel(), Ok(true));
    assert!(s.is_stopped_manually());
    for _ in 0..5 {
        assert!(!s.watchdog(ChildPoll::Exited));
        let status = s.get_status(ChildPoll::Exited);
        assert!(!status.running && status.configured);
    }

    // A start through any path clears the flag, and a later crash counts again.
    assert!(s.start_tunnel(false).is_ok());
    assert!(!s.is_stopped_manually());
    s.tunnel_started(None);
    assert!(!s.watchdog(ChildPoll::Alive));
    assert!(s.watchdog(ChildPoll::Exited));
}

#[test]
fn failed_restart_is_not_repeated() {
    let mut s = Supervisor::new();
    s.install(TunnelManager::new("/data", Some(named_config(9090))));
    s.tunnel_started(None);
    assert!(!s.watchdog(ChildPoll::Alive));
    assert!(s.watchdog(ChildPoll::Exited));
    s.watchdog_restarted(false);
    assert!(!s.watchdog(ChildPoll::Exited));
}

#[test]
fn commands_without_manager_are_refused() {
    let mut s = Supervisor::new();
    assert!(!s.has_manager());
    assert_eq!(s.start_tunnel(true).err(), Some(CommandError::TunnelNotConfigured));
    assert_eq!(s.start_quick_tunnel(9090).err(), Some(CommandError::TunnelNotConfigured));
    assert_eq!(s.stop_tunnel(), Err(CommandError::TunnelNotConfigured));
    let status = s.get_status(ChildPoll::Alive);
    assert!(!status.configured && !status.running && status.config.is_none());
    assert!(!s.watchdog(ChildPoll::Alive));
}

#[test]
fn start_command_checks_the_port() {
    let mut s = Supervisor::new();
    s.install(TunnelManager::new("/data", Some(named_config(8080))));
    assert_eq!(s.start_tunnel(true).err(), Some(CommandError::PortMismatch { configured: 8080 }));
    assert!(!s.is_stopped_manually());
}

#[test]
fn cloudflared_probe() {
    let ok = |s: &str| VersionProbe::Succeeded { stdout: s.to_string() };
    let s = check_cloudflared(Some(ok("cloudflared version 2024.1.0\n")), VersionProbe::NotRun);
    assert!(s.installed);
    assert_eq!(s.version.as_deref(), Some("cloudflared version 2024.1.0"));
    assert!(s.error.is_none());

    let s = check_cloudflared(Some(VersionProbe::Failed), ok("x"));
    assert!(s.installed && s.version.is_none() && s.error.is_none());
    let s = check_cloudflared(Some(VersionProbe::NotRun), ok("x"));
    assert!(s.installed && s.version.is_none() && s.error.is_none());

    let s = check_cloudflared(None, ok("  v1  "));
    assert_eq!(s.version.as_deref(), Some("v1"));
    let s = check_cloudflared(None, VersionProbe::Failed);
    assert!(s.installed);
    assert_eq!(s.error.as_deref(), Some("cloudflared returned an error"));
    let s = check_cloudflared(None, VersionProbe::NotRun);
    assert!(!s.installed);
    assert_eq!(s.error.as_deref(), Some("cloudflared not found"));
}

#[test]
fn error_messages() {
    assert_eq!(TunnelError::AlreadyRunning.message(), "Tunnel is already running");
    assert_eq!(TunnelError::NotConfigured.message(), "Tunnel not configured. Run setup first.");
    assert_eq!(TunnelError::ConfigFileMissing.message(), "Tunnel config not found. Run setup first.");
    assert_eq!(TunnelError::NoPublicUrl.message(), "Could not determine quick tunnel URL");
    assert_eq!(TunnelError::UrlTimeout.message(), "Timed out waiting for quick tunnel URL");
    assert_eq!(TunnelError::NoAccount.message(), "No Cloudflare accounts found for this API token");
    assert_eq!(TunnelError::TunnelRejected.message(), "Failed to create tunnel via API");
    assert_eq!(TunnelError::IngressRejected.message(), "Failed to configure tunnel ingress");
}

#[test]
fn zone_is_the_last_two_labels() {
    assert_eq!(zone_name("hub.citinet.io").as_deref(), Some("citinet.io"));
    assert_eq!(zone_name("a.b.c.d").as_deref(), Some("c.d"));
    assert_eq!(zone_name("citinet.io").as_deref(), Some("citinet.io"));
    assert_eq!(zone_name("localhost"), None);
    assert_eq!(zone_name(""), None);
    assert_eq!(zone_name("x.").as_deref(), Some("x."));
    assert_eq!(zone_name(".").as_deref(), Some("."));
}

#[test]
fn provider_answers() {
    assert_eq!(tunnel_cname("abc"), "abc.cfargotunnel.com");
    let ids = vec!["acc1".to_string(), "acc2".to_string()];
    assert_eq!(pick_account(true, &ids), Ok("acc1".to_string()));
    assert_eq!(pick_account(false, &ids), Err(TunnelError::NoAccount));
    assert_eq!(pick_account(true, &Vec::new()), Err(TunnelError::NoAccount));

    let t = created_tunnel(true, "tid".to_string(), None).unwrap();
    assert_eq!((t.tunnel_id.as_str(), t.tunnel_token.as_str()), ("tid", ""));
    let t = created_tunnel(true, "tid".to_string(), Some("tok".to_string())).unwrap();
    assert_eq!(t.tunnel_token, "tok");
    assert_eq!(created_tunnel(false, "tid".to_string(), None).err(), Some(TunnelError::TunnelRejected));

    assert_eq!(pick_zone(true, &ids), Some("acc1".to_string()));
    assert_eq!(pick_zone(false, &ids), None);
    assert_eq!(pick_zone(true, &Vec::new()), None);
    assert!(record_accepted(Some(true)));
    assert!(!record_accepted(Some(false)));
    assert!(!record_accepted(None));
    assert_eq!(ingress_accepted(Some(true)), Ok(()));
    assert_eq!(ingress_accepted(Some(false)), Err(TunnelError::IngressRejected));
    assert_eq!(ingress_accepted(None), Err(TunnelError::IngressRejected));
}

#[test]
fn tunnel_secret_is_base64_of_sixteen_bytes() {
    let a = citinet_hub::tunnel_manager::new_tunnel_secret();
    let b = citinet_hub::tunnel_manager::new_tunnel_secret();
    assert_eq!(a.len(), 24);
    assert!(a.ends_with("=="));
    assert!(a[..22].chars().all(|c| c.is_ascii_alphanumeric() || c == '+' || c == '/'));
    assert_ne!(a, b);
}

fn quick_manager() -> TunnelManager {
    let stored = TunnelManager::quick_tunnel_config("https://old.trycloudflare.com", 9090, "2024-01-01T00:00:00+00:00").unwrap();
    TunnelManager::new("/data", Some(stored))
}

#[test]
fn quick_start_is_decided_by_the_scan() {
    assert_eq!(
        quick_start_outcome(&UrlScan::Found("https://new.trycloudflare.com/".to_string())),
        Ok("new.trycloudflare.com".to_string())
    );
    assert_eq!(quick_start_outcome(&UrlScan::StreamEnded), Err(TunnelError::NoPublicUrl));
    assert_eq!(quick_start_outcome(&UrlScan::TimedOut), Err(TunnelError::UrlTimeout));
}

#[test]
fn quick_restart_without_url_has_not_started() {
    let end = UrlScan::StreamEnded;
    let late = UrlScan::TimedOut;
    let mut m = quick_manager();
    assert_eq!(m.quick_scan_finished(&end), Err(TunnelError::NoPublicUrl));
    assert_eq!(state_of(&m), TunnelState::ConfiguredStopped);
    assert_eq!(m.get_config().unwrap().hostname, "old.trycloudflare.com");
    assert_eq!(m.quick_scan_finished(&late), Err(TunnelError::UrlTimeout));
    assert_eq!(state_of(&m), TunnelState::ConfiguredStopped);
    assert_eq!(m.get_config().unwrap().hostname, "old.trycloudflare.com");
    assert!(m.start_tunnel(false).is_ok());

    let mut s = Supervisor::new();
    s.install(quick_manager());
    assert_eq!(s.quick_scan_finished(&late), Err(TunnelError::UrlTimeout));
    assert!(!s.manager_ref().unwrap().is_running());
}

#[test]
fn quick_restart_with_url_runs_under_the_new_hostname() {
    let found = UrlScan::Found("https://new.trycloudflare.com".to_string());
    let mut m = quick_manager();
    assert_eq!(m.quick_scan_finished(&found), Ok(()));
    assert_eq!(state_of(&m), TunnelState::Running);
    assert_eq!(m.get_config().unwrap().hostname, "new.trycloudflare.com");

    let mut s = Supervisor::new();
    assert_eq!(s.quick_scan_finished(&found), Ok(()));
    assert!(!s.has_manager());
    s.install(quick_manager());
    assert_eq!(s.quick_scan_finished(&found), Ok(()));
    assert!(s.manager_ref().unwrap().is_running());
    assert_eq!(s.manager_ref().unwrap().get_config().unwrap().hostname, "new.trycloudflare.com");
}

#[test]
fn automatic_start_does_not_look_at_the_port() {
    let mut s = Supervisor::new();
    assert_eq!(s.restart_tunnel(false).err(), Some(CommandError::TunnelNotConfigured));
    s.install(TunnelManager::new("/data", Some(named_config(8080))));
    assert_eq!(s.start_tunnel(false).err(), Some(CommandError::PortMismatch { configured: 8080 }));
    assert_eq!(s.stop_tunnel(), Ok(false));
    assert!(s.is_stopped_manually());
    match s.restart_tunnel(false) {
        Ok(LaunchPlan::Token { token }) => assert_eq!(token, "tok"),
        _ => panic!("a token plan was expected"),
    }
    assert!(!s.is_stopped_manually());
    s.tunnel_started(None);
    assert_eq!(s.restart_tunnel(false).err(), Some(CommandError::Tunnel(TunnelError::AlreadyRunning)));
}

#[test]
fn quick_url_in_marked_text() {
    let mark = |text: &str| -> Vec<(char, bool)> { text.chars().map(|c| (c, c == ' ')).collect() };
    assert_eq!(
        citinet_hub::tunnel_manager::parse_quick_url_marked(&mark("  INF | https://a-b.trycloudflare.com | ")),
        Some("https://a-b.trycloudflare.com".to_string())
    );
    assert_eq!(
        citinet_hub::tunnel_manager::parse_quick_url_marked(&mark("https://x.trycloudflare.com||\tmore")),
        Some("https://x.trycloudflare.com||\tmore".to_string())
    );
    assert_eq!(citinet_hub::tunnel_manager::parse_quick_url_marked(&mark("https://example.com")), None);
    assert_eq!(citinet_hub::tunnel_manager::parse_quick_url_marked(&mark("   ")), None);
}
