use citinet_hub::commands::{
    get_node_status, greet, hub_url, is_restricted_path, make_slug, register_hub, registry_accepted,
    validate_install_path, CreateDirOutcome, NodeIdentity, RegistryError,
};
use citinet_hub::docker_manager::{
    check_docker, check_docker_command, list_containers, list_containers_command,
    parse_container, restart_container, run_docker_command, start_container, stop_container,
    CommandOutcome,
};
use citinet_hub::hub_service::{broadcast_hostname, discovered_node, services_property, HubService};
use citinet_hub::relocation::{
    backup_name, backup_report, check_space, check_target, next_stage, verify_copy,
    RelocationError, RelocationNext, RelocationStage,
};
use citinet_hub::system_monitor::get_drive_space_for_path;
use citinet_hub::tailscale_manager::{
    LoginStart, PollStep, TailscaleManager, TailscaleProbe,
};
use citinet_hub::text::{
    find, push_decimal, split_chars, split_lines, str_before, str_contains, str_eq, to_chars,
    trimmed,
};
use citinet_hub::tunnel_manager::{TunnelManager, ChildPoll};

fn exited(success: bool, stdout: &str, stderr: &str) -> CommandOutcome {
    CommandOutcome::Exited { success, stdout: stdout.to_string(), stderr: stderr.to_string() }
}

#[test]
fn text_comparison() {
    assert!(str_eq("", ""));
    assert!(str_eq("abc", "abc"));
    assert!(!str_eq("abc", "abd"));
    assert!(!str_eq("abc", "ab"));
    assert!(str_eq("h\u{00e9}", "h\u{00e9}"));
    assert!(str_before("a", "b"));
    assert!(str_before("", "a"));
    assert!(str_before("ab", "abc"));
    assert!(!str_before("abc", "ab"));
    assert!(!str_before("a", "a"));
    assert!(!str_before("b", "a"));
    assert!(str_before("2024-01-01T00:00:09", "2024-01-01T00:00:10"));
    assert!(str_before("Z", "a"));
    assert!(str_before("z", "\u{00e9}"));
}

#[test]
fn text_search_and_trim() {
    assert!(str_contains("hello world", "o w"));
    assert!(str_contains("hello", ""));
    assert!(str_contains("", ""));
    assert!(!str_contains("hello", "world"));
    assert!(!str_contains("ab", "abc"));
    assert_eq!(find(&to_chars("abcabc"), &to_chars("bc")), Some(1));
    assert_eq!(find(&to_chars("abc"), &to_chars("")), Some(0));
    assert_eq!(find(&to_chars(""), &to_chars("")), Some(0));
    assert_eq!(find(&to_chars("abc"), &to_chars("d")), None);
    assert_eq!(trimmed("  a b \t\n"), "a b");
    assert_eq!(trimmed("\u{00a0}x\u{2003}"), "x");
    assert_eq!(trimmed("   "), "");
    assert_eq!(trimmed(""), "");
}

#[test]
fn decimal_numbers() {
    let render = |n: u64| -> String {
        let mut v = Vec::new();
        push_decimal(&mut v, n);
        v.into_iter().collect()
    };
    assert_eq!(render(0), "0");
    assert_eq!(render(7), "7");
    assert_eq!(render(10), "10");
    assert_eq!(render(9090), "9090");
    assert_eq!(render(u64::MAX), "18446744073709551615");
}

#[test]
fn lines_and_parts() {
    let lines = |s: &str| -> Vec<String> {
        split_lines(&to_chars(s)).into_iter().map(|l| l.into_iter().collect()).collect()
    };
    assert_eq!(lines("a\nb\r\nc"), vec!["a", "b", "c"]);
    assert_eq!(lines("a\n"), vec!["a"]);
    assert_eq!(lines("a\n\nb"), vec!["a", "", "b"]);
    assert_eq!(lines("a\r"), vec!["a\r"]);
    assert_eq!(lines("\n"), vec![""]);
    assert!(lines("").is_empty());
    for s in ["a\nb\r\nc", "a\n", "a\n\nb", "a\r", "\n", "", "\r\n\r\n", "x\ry\n"] {
        let expected: Vec<String> = s.lines().map(|l| l.to_string()).collect();
        assert_eq!(lines(s), expected);
    }
    for s in ["a,b,c", "", ",", "a,", ",a", "abc"] {
        let expected: Vec<String> = s.split(',').map(|l| l.to_string()).collect();
        assert_eq!(split_chars(&to_chars(s), ','), expected);
    }
}

#[test]
fn docker_status() {
    assert_eq!(check_docker_command().args, vec!["info", "--format", "{{.ServerVersion}}"]);
    let s = check_docker(&exited(true, "24.0.7\n", ""));
    assert!(s.installed && s.running);
    assert_eq!(s.version.as_deref(), Some("24.0.7"));
    assert!(s.error.is_none());
    let s = check_docker(&exited(false, "", " Cannot connect to the Docker daemon \n"));
    assert!(s.installed && !s.running);
    assert!(s.version.is_none());
    assert_eq!(s.error.as_deref(), Some("Cannot connect to the Docker daemon"));
    let s = check_docker(&CommandOutcome::NotRun { reason: "no such file".to_string() });
    assert!(!s.installed && !s.running);
    assert_eq!(s.error.as_deref(), Some("Docker not found in PATH"));
}

#[test]
fn docker_commands() {
    assert_eq!(start_container("abc").args, vec!["start", "abc"]);
    assert_eq!(stop_container("abc").args, vec!["stop", "abc"]);
    assert_eq!(restart_container("abc").args, vec!["restart", "abc"]);
    let c = start_container("abc");
    assert_eq!(run_docker_command(&c, &exited(true, "", "ignored")), Ok(()));
    let bare = citinet_hub::docker_manager::DockerCommand { args: Vec::new() };
    assert_eq!(run_docker_command(&bare, &exited(false, "", "x")), Err("docker  failed: x".to_string()));
    assert_eq!(
        run_docker_command(&c, &exited(false, "", " No such container: abc\n")),
        Err("docker start failed: No such container: abc".to_string())
    );
    assert_eq!(
        run_docker_command(&stop_container("x"), &CommandOutcome::NotRun { reason: "not found".to_string() }),
        Err("Failed to run docker stop: not found".to_string())
    );
}

#[test]
fn docker_listing() {
    assert_eq!(list_containers_command().args, vec!["ps", "-a", "--format", "{{json .}}"]);
    let out = format!(
        "{}{}\n\n   {}  \r\n",
        "{\"ID\":\"abc\",\"Names\":\"web\",\"Image\":\"nginx\",\"Status\":\"Up 2 hours\",",
        "\"State\":\"running\",\"Ports\":\"80/tcp\",\"CreatedAt\":\"2024-01-01\",\"Extra\":1}",
        "{\"ID\":\"def\",\"Names\":7}",
    );
    let list = list_containers(&exited(true, &out, "")).unwrap();
    assert_eq!(list.len(), 2);
    assert_eq!(list[0].id, "abc");
    assert_eq!(list[0].names, "web");
    assert_eq!(list[0].image, "nginx");
    assert_eq!(list[0].status, "Up 2 hours");
    assert_eq!(list[0].state, "running");
    assert_eq!(list[0].ports, "80/tcp");
    assert_eq!(list[0].created, "2024-01-01");
    assert_eq!(list[1].id, "def");
    assert_eq!(list[1].names, "");
    assert_eq!(list[1].image, "");

    assert!(list_containers(&exited(true, "", "")).unwrap().is_empty());
    assert!(list_containers(&exited(true, "[1,2]", "")).unwrap()[0].id.is_empty());
    let err = list_containers(&exited(true, "{\"ID\":\"abc\"}\nnot json\n", "")).unwrap_err();
    assert!(err.starts_with("Failed to parse docker output: "));
    assert!(err.len() > "Failed to parse docker output: ".len());
    assert_eq!(
        list_containers(&exited(false, "", " daemon down ")).unwrap_err(),
        "docker ps failed: daemon down"
    );
    assert_eq!(
        list_containers(&CommandOutcome::NotRun { reason: "no docker".to_string() }).unwrap_err(),
        "Failed to run docker ps: no docker"
    );
    assert!(parse_container("{}").is_ok());
    assert!(parse_container("{").is_err());
}

fn probe(installed: bool, state: Option<&str>, dns: Option<&str>, listing: Option<&str>) -> TailscaleProbe {
    TailscaleProbe {
        installed,
        backend_state: state.map(|s| s.to_string()),
        dns_name: dns.map(|s| s.to_string()),
        funnel_listing: listing.map(|s| s.to_string()),
    }
}

#[test]
fn tailscale_status() {
    let m = TailscaleManager::new();
    let s = m.get_status(&probe(false, Some("Running"), Some("box.tail1.ts.net."), Some(":443")));
    assert!(!s.installed && !s.logged_in && !s.funnel_active);
    assert!(s.machine_name.is_none() && s.funnel_url.is_none());

    let s = m.get_status(&probe(true, Some("Running"), Some("box.tail1.ts.net."), Some("https://x:443 -> http://127.0.0.1:9090")));
    assert!(s.installed && s.logged_in && s.funnel_active);
    assert_eq!(s.machine_name.as_deref(), Some("box"));
    assert_eq!(s.funnel_url.as_deref(), Some("https://box.tail1.ts.net"));

    let s = m.get_status(&probe(true, Some("NeedsLogin"), Some("box.tail1.ts.net.."), Some(":443")));
    assert!(s.installed && !s.logged_in && !s.funnel_active);
    assert_eq!(s.machine_name.as_deref(), Some("box"));
    assert!(s.funnel_url.is_none());

    let s = m.get_status(&probe(true, Some("Running"), None, None));
    assert!(s.logged_in && !s.funnel_active);
    assert!(s.machine_name.is_none() && s.funnel_url.is_none());
    let s = m.get_status(&probe(true, None, Some("solo"), Some("No serve config")));
    assert!(!s.logged_in && !s.funnel_active);
    assert_eq!(s.machine_name.as_deref(), Some("solo"));
}

#[test]
fn tailscale_probes() {
    let m = TailscaleManager::new();
    assert_eq!(m.cmd(true), "C:\\Program Files\\Tailscale\\tailscale.exe");
    assert_eq!(m.cmd(false), "tailscale");
    assert!(m.is_installed(true, None));
    assert!(m.is_installed(false, Some(true)));
    assert!(!m.is_installed(false, Some(false)));
    assert!(!m.is_installed(false, None));
    assert!(m.is_funnel_active(Some("https://box.ts.net (Funnel on)\n|-- / proxy http://127.0.0.1:9090")));
    assert!(m.is_funnel_active(Some("x https://localhost:1 y")));
    assert!(m.is_funnel_active(Some("http://localhost")));
    assert!(m.is_funnel_active(Some("a:443")));
    assert!(!m.is_funnel_active(Some("No serve config")));
    assert!(!m.is_funnel_active(Some("")));
    assert!(!m.is_funnel_active(None));
    assert!(m.poll_login(Some("Running")));
    assert!(!m.poll_login(Some("running")));
    assert!(!m.poll_login(Some("Stopped")));
    assert!(!m.poll_login(None));
}

#[test]
fn tailscale_login_url() {
    assert_eq!(
        TailscaleManager::find_url_in_line("To authenticate, visit: https://login.tailscale.com/a/1b2c3d4e."),
        Some("https://login.tailscale.com/a/1b2c3d4e".to_string())
    );
    assert_eq!(
        TailscaleManager::find_url_in_line("\thttps://login.tailscale.com/a/xyz and more"),
        Some("https://login.tailscale.com/a/xyz".to_string())
    );
    assert_eq!(
        TailscaleManager::find_url_in_line("https://login.tailscale.com"),
        Some("https://login.tailscale.com".to_string())
    );
    assert_eq!(TailscaleManager::find_url_in_line("visit https://example.com"), None);
    assert_eq!(TailscaleManager::find_url_in_line(""), None);
    assert_eq!(TailscaleManager::extract_auth_url(Some("u")), Some("u".to_string()));
    assert_eq!(TailscaleManager::extract_auth_url(Some("")), None);
    assert_eq!(TailscaleManager::extract_auth_url(None), None);
}

#[test]
fn tailscale_login_steps() {
    assert!(matches!(TailscaleManager::new().start_login(None), LoginStart::Proceed));
    assert!(matches!(TailscaleManager::new().start_login(Some((Some("NeedsLogin"), None))), LoginStart::Proceed));
    assert!(matches!(TailscaleManager::new().start_login(Some((None, Some("")))), LoginStart::Proceed));
    assert!(matches!(TailscaleManager::new().start_login(Some((Some("Running"), Some("")))), LoginStart::AlreadyLoggedIn));
    match TailscaleManager::new().start_login(Some((Some("Running"), Some("https://u")))) {
        LoginStart::OpenUrl(u) => assert_eq!(u, "https://u"),
        other => panic!("unexpected {:?}", other),
    }
    assert_eq!(TailscaleManager::poll_pause_ms(0), 100);
    assert_eq!(TailscaleManager::poll_pause_ms(4_999), 100);
    assert_eq!(TailscaleManager::poll_pause_ms(5_000), 1_000);
    assert!(matches!(TailscaleManager::poll_status(60_001, Some("Running"), Some("u")), PollStep::GiveUp));
    assert!(matches!(TailscaleManager::poll_status(60_000, Some("Running"), Some("u")), PollStep::LoggedIn));
    assert!(matches!(TailscaleManager::poll_status(0, Some("Starting"), None), PollStep::Again));
    assert!(matches!(TailscaleManager::poll_status(0, None, Some("")), PollStep::Again));
    match TailscaleManager::poll_status(10, Some("NeedsLogin"), Some("https://u")) {
        PollStep::Found(u) => assert_eq!(u, "https://u"),
        other => panic!("unexpected {:?}", other),
    }
}

#[test]
fn tailscale_funnel_results() {
    let m = TailscaleManager::new();
    let logged_in = m.get_status(&probe(true, Some("Running"), Some("box.ts.net."), None));
    let logged_out = m.get_status(&probe(true, None, Some("box.ts.net."), None));
    assert_eq!(TailscaleManager::new().enable_funnel(None, &logged_in), Ok("https://box.ts.net".to_string()));
    assert!(TailscaleManager::new().enable_funnel(None, &logged_out)
        .unwrap_err()
        .starts_with("Funnel started but URL not available"));
    assert_eq!(
        TailscaleManager::new().enable_funnel(Some(("bad", "out")), &logged_in),
        Err("tailscale funnel failed: bad out".to_string())
    );
    assert_eq!(TailscaleManager::new().disable_funnel(None), Ok(()));
    assert_eq!(
        TailscaleManager::new().disable_funnel(Some("nope")),
        Err("tailscale funnel off failed: nope".to_string())
    );
}

#[test]
fn hub_announcement() {
    assert_eq!(broadcast_hostname("My Home Hub"), "my-home-hub.local.");
    assert_eq!(broadcast_hostname(""), ".local.");
    assert_eq!(services_property(&vec!["files".to_string(), "chat".to_string()]), "files,chat");
    assert_eq!(services_property(&vec!["files".to_string()]), "files");
    assert_eq!(services_property(&Vec::new()), "");

    let mut s = HubService::new();
    let info = s.get_service_info();
    assert_eq!((info.service_name.as_str(), info.port, info.is_running), ("", 9090, false));
    assert!(info.services.is_empty());
    assert!(!s.stop_broadcasting());
    s.start_broadcasting("Home".to_string(), vec!["files".to_string()]);
    let info = s.get_service_info();
    assert_eq!((info.service_name.as_str(), info.port, info.is_running), ("Home", 9090, true));
    assert_eq!(info.services, vec!["files"]);
    assert!(s.stop_broadcasting());
    assert!(!s.get_service_info().is_running);
    assert_eq!(s.get_service_info().service_name, "Home");
    assert!(!s.stop_broadcasting());
}

#[test]
fn discovered_hubs() {
    let node = |id: &str, port: u16| {
        discovered_node(id, "host.local.", vec!["10.0.0.2".to_string()], port, Some("files,chat"), None, 42)
    };
    let n = node("a._citinet._tcp.local.", 9090);
    assert_eq!(n.id, "a._citinet._tcp.local.");
    assert_eq!(n.name, "host.local.");
    assert_eq!(n.addresses, vec!["10.0.0.2"]);
    assert_eq!(n.services, vec!["files", "chat"]);
    assert_eq!(n.node_type, "unknown");
    assert_eq!(n.last_seen, 42);
    let typed = discovered_node("x", "h", Vec::new(), 1, None, Some("hub"), 0);
    assert_eq!(typed.node_type, "hub");
    assert!(typed.services.is_empty());
    let empty = discovered_node("x", "h", Vec::new(), 1, Some(""), None, 0);
    assert_eq!(empty.services, vec![""]);

    let mut s = HubService::new();
    assert!(s.get_discovered_nodes().is_empty());
    s.node_resolved(node("a", 1));
    s.node_resolved(node("b", 2));
    s.node_resolved(node("a", 3));
    let list = s.get_discovered_nodes();
    let seen: Vec<(&str, u16)> = list.iter().map(|n| (n.id.as_str(), n.port)).collect();
    assert_eq!(seen, vec![("a", 3), ("b", 2)]);
    assert_eq!(list[0].services, vec!["files", "chat"]);
    s.node_removed("a");
    s.node_removed("missing");
    let list = s.get_discovered_nodes();
    let seen: Vec<&str> = list.iter().map(|n| n.id.as_str()).collect();
    assert_eq!(seen, vec!["b"]);
}

#[test]
fn slugs() {
    assert_eq!(make_slug("My Home Hub"), "my-home-hub");
    assert_eq!(make_slug("  --Hello,   World!!  "), "hello-world");
    assert_eq!(make_slug("abc"), "abc");
    assert_eq!(make_slug(""), "");
    assert_eq!(make_slug("!!!"), "");
    assert_eq!(make_slug("a_b"), "a-b");
    assert_eq!(make_slug("Caf\u{00c9} 24"), "caf\u{00e9}-24");
    let long = "a".repeat(100);
    assert_eq!(make_slug(&long), "a".repeat(63));
    let dashed = format!("{} b", "a".repeat(62));
    assert_eq!(make_slug(&dashed), format!("{}-", "a".repeat(62)));
    assert_eq!(greet("Ada"), "Welcome to Citinet, Ada!");
}

#[test]
fn registry_entry() {
    assert_eq!(hub_url("a.trycloudflare.com"), "https://a.trycloudflare.com");
    assert_eq!(hub_url("https://a.example"), "https://a.example");
    assert_eq!(hub_url("http://a.example"), "http://a.example");
    assert_eq!(hub_url("httpbin.org"), "httpbin.org");
    assert_eq!(hub_url(""), "https://");
    assert!(registry_accepted(200) && registry_accepted(204) && registry_accepted(299));
    assert!(!registry_accepted(199) && !registry_accepted(300) && !registry_accepted(404));

    let node = || Some(Some(NodeIdentity { node_id: "n1".to_string(), node_name: "My Hub".to_string() }));
    let mut tm = TunnelManager::new(
        "/data",
        Some(TunnelManager::named_tunnel_config("tid", "tok", "home", "hub.example.org", 9090, "now")),
    );
    let status = tm.get_status(ChildPoll::Alive);
    let reg = register_hub(true, node(), Some(&status)).unwrap();
    assert_eq!(reg.id, "n1");
    assert_eq!(reg.name, "My Hub");
    assert_eq!(reg.slug, "my-hub");
    assert_eq!(reg.tunnel_url, "https://hub.example.org");

    assert_eq!(register_hub(false, node(), Some(&status)).err(), Some(RegistryError::NoSecret));
    assert_eq!(register_hub(true, None, Some(&status)).err(), Some(RegistryError::NotInitialized));
    assert_eq!(register_hub(true, Some(None), Some(&status)).err(), Some(RegistryError::NodeNotConfigured));
    assert_eq!(register_hub(true, node(), None).err(), Some(RegistryError::TunnelNotInitialized));
    let mut bare = TunnelManager::new("/data", None);
    let unconfigured = bare.get_status(ChildPoll::Alive);
    assert_eq!(register_hub(true, node(), Some(&unconfigured)).err(), Some(RegistryError::TunnelNotConfigured));
    assert_eq!(RegistryError::NotInitialized.message(), "Node not initialized");
    assert_eq!(RegistryError::NodeNotConfigured.message(), "Node not configured");
    assert_eq!(RegistryError::TunnelNotInitialized.message(), "Tunnel not initialized");
    assert!(RegistryError::NoSecret.message().starts_with("Registry not configured in this build"));
    assert!(RegistryError::TunnelNotConfigured.message().starts_with("Tunnel not configured"));
}

#[test]
fn install_paths() {
    assert!(is_restricted_path("C:\\Program Files\\Hub"));
    assert!(is_restricted_path("c:\\PROGRAM FILES (x86)\\hub"));
    assert!(!is_restricted_path("C:\\Users\\me\\Hub"));
    assert!(!is_restricted_path(""));
    assert_eq!(validate_install_path("/data", &CreateDirOutcome::Created), Ok(true));
    assert_eq!(
        validate_install_path("/root/x", &CreateDirOutcome::PermissionDenied),
        Err("Permission denied: Cannot write to '/root/x'. Please choose a different location or run as administrator.".to_string())
    );
    assert_eq!(
        validate_install_path("/x", &CreateDirOutcome::Failed { reason: "disk full".to_string() }),
        Err("Cannot create directory: disk full".to_string())
    );
}

#[test]
fn relocation_checks() {
    assert_eq!(check_target("/old", ""), Err(RelocationError::EmptyPath));
    assert_eq!(check_target("/old", "/old"), Err(RelocationError::SamePath));
    assert_eq!(check_target("/old", "D:\\Program Files\\hub"), Err(RelocationError::RestrictedPath));
    assert_eq!(check_target("/old", "/new"), Ok(()));

    let margin = 100 * 1024 * 1024;
    assert_eq!(check_space(1_000, None), Ok(()));
    assert_eq!(check_space(1_000, Some(1_000 + margin)), Ok(()));
    assert_eq!(
        check_space(1_000, Some(999 + margin)),
        Err(RelocationError::NotEnoughSpace { required_bytes: 1_000 + margin, free_bytes: 999 + margin })
    );
    assert_eq!(
        check_space(u64::MAX, Some(u64::MAX)),
        Err(RelocationError::NotEnoughSpace { required_bytes: u64::MAX, free_bytes: u64::MAX })
    );

    assert_eq!(verify_copy(100, 3, 100, 3), Ok(()));
    assert_eq!(verify_copy(100, 3, 150, 4), Ok(()));
    let failed = RelocationError::VerificationFailed {
        expected_files: 3,
        expected_bytes: 100,
        found_files: 2,
        found_bytes: 100,
    };
    assert_eq!(verify_copy(100, 3, 100, 2), Err(failed));
    assert!(verify_copy(100, 3, 99, 3).is_err());

    assert_eq!(backup_name("hub", "20240101_120000"), "hub_migrated_20240101_120000");
    assert_eq!(backup_name("", "t"), "_migrated_t");
    assert_eq!(backup_report(true, "/x/hub_migrated_t", "/x/hub"), "/x/hub_migrated_t");
    assert_eq!(
        backup_report(false, "/x/hub_migrated_t", "/x/hub"),
        "/x/hub (could not rename, please delete manually)"
    );
}

#[test]
fn relocation_steps() {
    let order = [
        RelocationStage::Validate,
        RelocationStage::ProbeTarget,
        RelocationStage::CheckSpace,
        RelocationStage::CreateLayout,
        RelocationStage::CloseDatabase,
        RelocationStage::Copy,
        RelocationStage::Verify,
        RelocationStage::OpenDatabase,
        RelocationStage::UpdateInstallPath,
        RelocationStage::WriteMarker,
        RelocationStage::RenameOld,
        RelocationStage::Done,
    ];
    for w in order.windows(2) {
        assert_eq!(next_stage(w[0], true), RelocationNext::Continue(w[1]));
    }
    assert_eq!(next_stage(RelocationStage::Done, true), RelocationNext::Continue(RelocationStage::Done));
    for s in &order[0..5] {
        assert_eq!(next_stage(*s, false), RelocationNext::Fail);
    }
    for s in &order[5..10] {
        assert_eq!(next_stage(*s, false), RelocationNext::RollBack);
    }
    // A failed rename leaves the old directory in place and is no failure.
    assert_eq!(
        next_stage(RelocationStage::RenameOld, false),
        RelocationNext::Continue(RelocationStage::Done)
    );
}

#[test]
fn drive_of_a_path() {
    let mounts = |v: &[&str]| -> Vec<String> { v.iter().map(|s| s.to_string()).collect() };
    assert_eq!(get_drive_space_for_path("/home/me/hub", &mounts(&["/", "/home", "/var"])), Some(1));
    assert_eq!(get_drive_space_for_path("/srv", &mounts(&["/", "/home"])), Some(0));
    assert_eq!(get_drive_space_for_path("C:\\Users\\me", &mounts(&["D:\\", "c:\\"])), Some(1));
    assert_eq!(get_drive_space_for_path("relative", &mounts(&["/", "/home"])), None);
    assert_eq!(get_drive_space_for_path("/x", &Vec::new()), None);
    // Of equally long mount points the first wins; an empty one never does.
    assert_eq!(get_drive_space_for_path("/a", &mounts(&["/a", "/A"])), Some(0));
    assert_eq!(get_drive_space_for_path("/a", &mounts(&[""])), None);
}

#[test]
fn node_status() {
    assert!(get_node_status(None, 1, 1, "/d", 1).is_none());
    let mut sm = citinet_hub::storage_manager::StorageManager::initialize("/data");
    assert!(get_node_status(Some(&sm), 1, 1, "/d", 1).is_none());
    let limits = citinet_hub::storage_manager::ResourceLimits {
        disk_quota_milli_gb: 5_000,
        bandwidth_limit_milli_mbps: 1,
        cpu_limit_milli_percent: 2,
    };
    sm.save_node_config_with("n1", "t", "hub", "Home", limits, true);
    let s = get_node_status(Some(&sm), 10, 2, "/data/storage", 77).unwrap();
    assert_eq!((s.node_id.as_str(), s.node_name.as_str(), s.node_type.as_str()), ("n1", "Home", "hub"));
    assert_eq!(s.uptime_seconds, 77);
    assert!(s.online);
    assert_eq!((s.storage.used_bytes, s.storage.file_count, s.storage.quota_milli_gb), (10, 2, 5_000));
    assert_eq!(s.storage.data_path, "/data/storage");
}

fn with_marks(text: &str, kept: fn(char) -> bool) -> Vec<(char, bool)> {
    text.chars().map(|c| (c, kept(c))).collect()
}

#[test]
fn slug_of_marked_characters() {
    let alnum = |c: char| c.is_ascii_alphanumeric();
    assert_eq!(citinet_hub::commands::slug_from_marked(&with_marks("a  b", alnum)), "a-b");
    assert_eq!(citinet_hub::commands::slug_from_marked(&with_marks("--a--", alnum)), "a");
    assert_eq!(citinet_hub::commands::slug_from_marked(&with_marks("", alnum)), "");
    assert_eq!(citinet_hub::commands::slug_from_marked(&with_marks("A b", alnum)), "A-b");
    assert_eq!(citinet_hub::commands::slug_from_marked(&with_marks("a b", |_| true)), "a b");
    assert_eq!(citinet_hub::commands::slug_from_marked(&with_marks("ab", |_| false)), "");
    let long = format!("{} b", "a".repeat(62));
    assert_eq!(
        citinet_hub::commands::slug_from_marked(&with_marks(&long, alnum)),
        format!("{}-", "a".repeat(62))
    );
}

#[test]
fn login_url_in_marked_text() {
    let space = |c: char| c == ' ';
    assert_eq!(
        TailscaleManager::find_url_in_marked(&with_marks("go to https://login.tailscale.com/a/b. now", space)),
        Some("https://login.tailscale.com/a/b".to_string())
    );
    assert_eq!(
        TailscaleManager::find_url_in_marked(&with_marks("https://login.tailscale.com/a\tb", space)),
        Some("https://login.tailscale.com/a\tb".to_string())
    );
    assert_eq!(TailscaleManager::find_url_in_marked(&with_marks("https://login.tailscale.co", space)), None);
    assert_eq!(
        TailscaleManager::find_url_in_marked(&with_marks("https://login.tailscale.com", |c| c == 'h')),
        Some("ttps://login.tailscale.com".to_string())
    );
}
