use cmux::discovery::{debug_socket_name, discover_socket, discovery_paths, marker_target, newest_debug_socket, SocketProbe};
use cmux::paths::{
    agent_browser_candidates, bundled_chromium_path, bundled_location, chromium_candidates, first_available, join_path,
    mode_is_executable, path_search_candidates, resolve_chromium_path, xdg_comparison_paths, BundledProbe,
    ChromiumSource,
};

#[test]
fn joining_paths() {
    assert_eq!(join_path("/a", "b"), "/a/b");
    assert_eq!(join_path("/a/", "b"), "/a/b");
    assert_eq!(join_path("", "b"), "b");
    assert_eq!(join_path("/a", "/b"), "/b");
    assert_eq!(join_path("/home/u", ".local/share"), "/home/u/.local/share");
}

#[test]
fn chromium_candidate_order() {
    let cs = chromium_candidates(Some("/opt/c"), "/b/chrome", "/usr/bin::/bin");
    let shown: Vec<(String, ChromiumSource)> = cs.iter().map(|c| (c.path.clone(), c.source)).collect();
    let mut want = vec![
        ("/opt/c".to_string(), ChromiumSource::Config),
        ("/b/chrome".to_string(), ChromiumSource::Bundled),
    ];
    for name in ["chromium", "chromium-browser", "google-chrome", "google-chrome-stable", "chrome"] {
        want.push((format!("/usr/bin/{name}"), ChromiumSource::Path));
        want.push((format!("/bin/{name}"), ChromiumSource::Path));
    }
    for f in [
        "/var/lib/flatpak/exports/bin/com.google.Chrome",
        "/var/lib/flatpak/exports/bin/org.chromium.Chromium",
        "/var/lib/flatpak/exports/bin/io.github.ungoogled_software.ungoogled_chromium",
    ] {
        want.push((f.to_string(), ChromiumSource::Flatpak));
    }
    assert_eq!(shown, want);
}

#[test]
fn empty_override_and_empty_path_entries_are_skipped() {
    let cs = chromium_candidates(Some(""), "/b", "");
    assert_eq!(cs.len(), 1 + 3);
    assert!(cs.iter().all(|c| c.path != "chromium" && c.path != "chrome"));
}

#[test]
fn resolution_picks_first_executable() {
    let cs = chromium_candidates(None, "/b/chrome", "/usr/bin");
    let exes = vec!["/usr/bin/chrome".to_string(), "/usr/bin/google-chrome".to_string()];
    let r = resolve_chromium_path(&cs, &exes).unwrap();
    assert_eq!(r.path, "/usr/bin/google-chrome");
    assert_eq!(r.source, ChromiumSource::Path);
    let exes = vec!["/var/lib/flatpak/exports/bin/org.chromium.Chromium".to_string()];
    let r = resolve_chromium_path(&cs, &exes).unwrap();
    assert_eq!(r.source, ChromiumSource::Flatpak);
    assert!(resolve_chromium_path(&cs, &Vec::new()).is_none());
    assert_eq!(first_available(&vec!["a".into(), "b".into()], &vec!["b".into()]), Some(1));
}

#[test]
fn bundled_location_from_probe() {
    let p = BundledProbe {
        home: Some("/home/u".into()),
        xdg_data_home: Some("/home/u/data".into()),
        xdg_canonical: Some("/home/u/data".into()),
        home_canonical: Some("/home/u".into()),
    };
    assert_eq!(bundled_chromium_path(&p), "/home/u/data/cmux/chromium/chrome");
    let p = BundledProbe {
        home: Some("/home/u".into()),
        xdg_data_home: Some("/tmp/attacker".into()),
        xdg_canonical: Some("/tmp/attacker".into()),
        home_canonical: Some("/home/u".into()),
    };
    assert_eq!(bundled_chromium_path(&p), "/home/u/.local/share/cmux/chromium/chrome");
    let p = BundledProbe {
        home: Some("/home/u".into()),
        xdg_data_home: Some("/home/user2".into()),
        xdg_canonical: None,
        home_canonical: None,
    };
    assert_eq!(bundled_chromium_path(&p), "/home/u/.local/share/cmux/chromium/chrome");
    let p = BundledProbe { home: None, xdg_data_home: Some("/x".into()), xdg_canonical: None, home_canonical: None };
    assert_eq!(bundled_chromium_path(&p), "/tmp/cmux/chromium/chrome");
    let p = BundledProbe {
        home: Some("/home/u".into()),
        xdg_data_home: Some("".into()),
        xdg_canonical: None,
        home_canonical: None,
    };
    assert_eq!(bundled_chromium_path(&p), "/home/u/.local/share/cmux/chromium/chrome");
}

#[test]
fn agent_browser_search() {
    assert_eq!(
        agent_browser_candidates(Some("/usr/bin:"), Some("/opt/cmux")),
        vec!["/usr/bin/agent-browser", "agent-browser", "/opt/cmux/agent-browser", "/usr/lib/cmux/agent-browser"]
    );
    assert_eq!(agent_browser_candidates(None, None), vec!["/usr/lib/cmux/agent-browser"]);
    assert_eq!(path_search_candidates("/a:/b/", "kitty"), vec!["/a/kitty", "/b/kitty"]);
}

#[test]
fn executable_bits() {
    assert!(mode_is_executable(true, 0o755));
    assert!(mode_is_executable(true, 0o001));
    assert!(!mode_is_executable(true, 0o644));
    assert!(!mode_is_executable(false, 0o755));
}

fn probe() -> SocketProbe {
    SocketProbe {
        cmux_socket_path: None,
        cmux_socket: None,
        xdg_runtime: None,
        uid: 1000,
        runtime_socket_exists: false,
        marker_contents: None,
        marker_target_exists: false,
        debug_socket_exists: false,
        tmp_entries: Vec::new(),
    }
}

#[test]
fn discovery_path_names() {
    assert_eq!(
        discovery_paths(None, 1000),
        ("/run/user/1000/cmux/cmux.sock".to_string(), "/run/user/1000/cmux/last-socket-path".to_string())
    );
    assert_eq!(discovery_paths(Some("/x"), 1).0, "/x/cmux/cmux.sock");
    assert_eq!(marker_target("  /s.sock\n"), Some("/s.sock".to_string()));
    assert_eq!(marker_target(" \n"), None);
    assert!(debug_socket_name("cmux-debug-1.sock"));
    assert!(!debug_socket_name("cmux-debug.sock"));
    assert!(!debug_socket_name("cmux-debug-1.socket"));
}

#[test]
fn discovery_prefers_environment() {
    let mut p = probe();
    p.cmux_socket_path = Some("/a".into());
    p.cmux_socket = Some("/b".into());
    p.runtime_socket_exists = true;
    assert_eq!(discover_socket(&p), Some("/a".to_string()));
    p.cmux_socket_path = Some("".into());
    assert_eq!(discover_socket(&p), Some("/b".to_string()));
    p.cmux_socket = None;
    assert_eq!(discover_socket(&p), Some("/run/user/1000/cmux/cmux.sock".to_string()));
}

#[test]
fn discovery_falls_back_to_marker_and_debug_sockets() {
    let mut p = probe();
    p.marker_contents = Some("/m.sock\n".into());
    p.marker_target_exists = true;
    assert_eq!(discover_socket(&p), Some("/m.sock".to_string()));
    p.marker_target_exists = false;
    p.debug_socket_exists = true;
    assert_eq!(discover_socket(&p), Some("/tmp/cmux-debug.sock".to_string()));
    p.debug_socket_exists = false;
    p.tmp_entries = vec![
        ("cmux-debug-a.sock".into(), 10),
        ("other".into(), 99),
        ("cmux-debug-b.sock".into(), 20),
        ("cmux-debug-c.sock".into(), 20),
    ];
    assert_eq!(discover_socket(&p), Some("/tmp/cmux-debug-b.sock".to_string()));
    p.tmp_entries = vec![("x.sock".into(), 1)];
    assert_eq!(discover_socket(&p), Some("/run/user/1000/cmux/cmux.sock".to_string()));
    assert_eq!(newest_debug_socket(&vec![("cmux-debug-z.sock".into(), -5)]), Some(0));
}

#[test]
fn bundled_location_given_the_prefix_answer() {
    let p = BundledProbe {
        home: Some("/home/u".into()),
        xdg_data_home: Some("/data".into()),
        xdg_canonical: Some("/real/data".into()),
        home_canonical: None,
    };
    assert_eq!(
        xdg_comparison_paths(&p),
        Some(("/real/data".to_string(), "/home/u".to_string()))
    );
    assert_eq!(bundled_location(&p, true), "/real/data/cmux/chromium/chrome");
    assert_eq!(bundled_location(&p, false), "/home/u/.local/share/cmux/chromium/chrome");
    let empty_xdg = BundledProbe {
        home: Some("/home/u".into()),
        xdg_data_home: Some("".into()),
        xdg_canonical: None,
        home_canonical: None,
    };
    assert_eq!(xdg_comparison_paths(&empty_xdg), None);
    assert_eq!(bundled_location(&empty_xdg, true), "/home/u/.local/share/cmux/chromium/chrome");
    let no_home = BundledProbe { home: None, xdg_data_home: None, xdg_canonical: None, home_canonical: None };
    assert_eq!(bundled_location(&no_home, true), "/tmp/cmux/chromium/chrome");
}
