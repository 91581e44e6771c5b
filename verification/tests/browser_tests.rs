use cmux::browser::{
    overlay_label, parse_stream_port, reap_action, frame_bytes, stream_message_frame, stream_port_read_error,
    BrowserManager, ChildPoll, OpenFollowUp, OpenStart, PreviewState, ReapAction, ShutdownPlan,
    SpawnFailure, SpawnStep,
};

fn is_loading(m: &BrowserManager) -> bool {
    matches!(m.preview_state, PreviewState::Loading)
}

#[test]
fn new_manager_is_empty() {
    let m = BrowserManager::new(None);
    assert!(matches!(m.preview_state, PreviewState::Empty));
    assert_eq!(m.chromium_path(), None);
    let m = BrowserManager::new(Some("/usr/bin/chromium".into()));
    assert_eq!(m.chromium_path(), Some("/usr/bin/chromium"));
}

#[test]
fn with_config_path_prefers_executable_override() {
    let exes = vec!["/opt/chrome".to_string(), "/usr/bin/chromium".to_string()];
    let m = BrowserManager::with_config_path(Some("/opt/chrome"), "/b/chrome", "/usr/bin", &exes);
    assert_eq!(m.chromium_path(), Some("/opt/chrome"));
}

#[test]
fn with_config_path_falls_back_along_the_chain() {
    let exes = vec!["/usr/bin/chromium".to_string()];
    let m = BrowserManager::with_config_path(Some("/missing"), "/b/chrome", "/usr/local/bin:/usr/bin", &exes);
    assert_eq!(m.chromium_path(), Some("/usr/bin/chromium"));
    let exes = vec!["/b/chrome".to_string(), "/usr/bin/chromium".to_string()];
    let m = BrowserManager::with_config_path(None, "/b/chrome", "/usr/bin", &exes);
    assert_eq!(m.chromium_path(), Some("/b/chrome"));
    let m = BrowserManager::with_config_path(None, "/b/chrome", "/usr/bin", &Vec::new());
    assert_eq!(m.chromium_path(), None);
}

#[test]
fn socket_dir_discovery_order() {
    assert_eq!(
        BrowserManager::agent_browser_socket_dir(Some("/s"), Some("/run/user/1"), Some("/home/u"), "/tmp"),
        "/s"
    );
    assert_eq!(
        BrowserManager::agent_browser_socket_dir(Some(""), Some("/run/user/1"), Some("/home/u"), "/tmp"),
        "/run/user/1/agent-browser"
    );
    assert_eq!(
        BrowserManager::agent_browser_socket_dir(None, Some(""), Some("/home/u"), "/tmp"),
        "/home/u/.agent-browser"
    );
    assert_eq!(BrowserManager::agent_browser_socket_dir(None, None, None, "/tmp/"), "/tmp/agent-browser");
}

#[test]
fn socket_and_port_paths() {
    let m = BrowserManager::new(None);
    assert_eq!(m.daemon_socket_path("/run/user/1000/agent-browser"), "/run/user/1000/agent-browser/cmux.sock");
    assert_eq!(m.stream_port_path("/d/"), "/d/cmux.stream");
}

#[test]
fn daemon_environment() {
    let m = BrowserManager::new(Some("/c".into()));
    assert_eq!(
        m.daemon_env(),
        vec![
            ("AGENT_BROWSER_DAEMON".to_string(), "1".to_string()),
            ("AGENT_BROWSER_SESSION".to_string(), "cmux".to_string()),
            ("AGENT_BROWSER_STREAM_PORT".to_string(), "0".to_string()),
            ("AGENT_BROWSER_EXECUTABLE_PATH".to_string(), "/c".to_string()),
        ]
    );
    assert_eq!(BrowserManager::new(None).daemon_env().len(), 3);
}

#[test]
fn spawn_steps_mark_loading() {
    let mut m = BrowserManager::new(None);
    assert_eq!(m.spawn_daemon_child_if_needed(true), SpawnStep::Ready);
    assert!(is_loading(&m));
    let mut m = BrowserManager::new(None);
    assert_eq!(m.spawn_daemon_child_if_needed(false), SpawnStep::Spawn);
    assert_eq!(m.finish_spawn(Ok(())), Ok(()));
    assert_eq!(m.spawn_daemon_child_if_needed(false), SpawnStep::InFlight);
    assert!(is_loading(&m));
}

#[test]
fn spawn_failure_messages() {
    let mut m = BrowserManager::new(None);
    assert_eq!(
        m.finish_spawn(Err(SpawnFailure::BinaryNotFound)),
        Err("agent-browser not found in PATH. Install it or place it alongside the cmux binary.".to_string())
    );
    assert_eq!(
        m.finish_spawn(Err(SpawnFailure::SocketDir { dir: "/d".into(), error: "denied".into() })),
        Err("Failed to create socket dir /d: denied".to_string())
    );
    assert_eq!(
        m.finish_spawn(Err(SpawnFailure::Spawn { error: "nope".into() })),
        Err("Failed to spawn agent-browser: nope".to_string())
    );
    assert_eq!(m.shutdown(), ShutdownPlan { reap_child: false, abort_stream: false });
}

#[test]
fn second_open_while_loading_is_ignored() {
    let mut m = BrowserManager::new(None);
    assert_eq!(m.begin_open(false), OpenStart::Started(SpawnStep::Spawn));
    assert!(m.bootstrap_in_flight());
    assert_eq!(m.begin_open(false), OpenStart::Ignored);
    assert_eq!(m.begin_open(true), OpenStart::Ignored);
}

#[test]
fn bootstrap_outcomes() {
    let mut m = BrowserManager::new(None);
    m.begin_open(false);
    m.finish_spawn(Ok(())).unwrap();
    assert_eq!(m.bootstrap_finished(Some(Ok(()))), OpenFollowUp::WirePane);
    assert!(matches!(m.preview_state, PreviewState::Connected));

    let mut m = BrowserManager::new(None);
    m.begin_open(false);
    m.finish_spawn(Ok(())).unwrap();
    assert_eq!(
        m.bootstrap_finished(Some(Err("timeout".into()))),
        OpenFollowUp::TearDown(ShutdownPlan { reap_child: true, abort_stream: false })
    );
    assert!(matches!(&m.preview_state, PreviewState::Error(e) if e == "timeout"));
    // the torn-down manager can be opened again and spawns a fresh child
    assert_eq!(m.begin_open(false), OpenStart::Started(SpawnStep::Spawn));

    let mut m = BrowserManager::new(None);
    m.begin_open(true);
    assert_eq!(m.bootstrap_finished(None), OpenFollowUp::Nothing);
    assert!(matches!(m.preview_state, PreviewState::Empty));
}

#[test]
fn streaming_and_shutdown() {
    let mut m = BrowserManager::new(None);
    m.begin_open(false);
    m.finish_spawn(Ok(())).unwrap();
    assert_eq!(m.ensure_daemon(Ok(())), Ok(()));
    let s = m.start_stream(9222);
    assert_eq!(s.url, "ws://127.0.0.1:9222");
    assert!(!s.abort_prior);
    assert!(matches!(m.preview_state, PreviewState::Streaming));
    let s = m.start_stream(1);
    assert!(s.abort_prior);
    assert_eq!(m.shutdown(), ShutdownPlan { reap_child: true, abort_stream: true });
    assert_eq!(m.shutdown(), ShutdownPlan { reap_child: false, abort_stream: false });
}

#[test]
fn stream_port_parsing() {
    assert_eq!(parse_stream_port("  9222\n"), Ok(9222));
    assert_eq!(parse_stream_port("+80"), Ok(80));
    assert_eq!(parse_stream_port("65535"), Ok(65535));
    assert_eq!(parse_stream_port("0"), Ok(0));
    assert_eq!(
        parse_stream_port(" \n"),
        Err("Failed to parse stream port '': cannot parse integer from empty string".to_string())
    );
    assert_eq!(
        parse_stream_port("12a"),
        Err("Failed to parse stream port '12a': invalid digit found in string".to_string())
    );
    assert_eq!(
        parse_stream_port("-1"),
        Err("Failed to parse stream port '-1': invalid digit found in string".to_string())
    );
    assert_eq!(
        parse_stream_port("+"),
        Err("Failed to parse stream port '+': invalid digit found in string".to_string())
    );
    assert_eq!(
        parse_stream_port("70000"),
        Err("Failed to parse stream port '70000': number too large to fit in target type".to_string())
    );
    assert_eq!(
        parse_stream_port("99999x"),
        Err("Failed to parse stream port '99999x': number too large to fit in target type".to_string())
    );
}

#[test]
fn stream_port_parse_agrees_with_std() {
    for s in ["1", "080", "+0", "65536", "", "x", "+-1", "1 2", "00065535"] {
        let ours = parse_stream_port(s).ok();
        let std = s.trim().parse::<u16>().ok();
        assert_eq!(ours, std, "input {s:?}");
    }
}

#[test]
fn port_written_in_decimal_reads_back() {
    for p in [0u16, 7, 80, 9222, 65535] {
        assert_eq!(parse_stream_port(&p.to_string()), Ok(p));
    }
}

#[test]
fn ensure_daemon_reports_bootstrap_failure() {
    let mut m = BrowserManager::new(None);
    m.begin_open(false);
    assert_eq!(m.ensure_daemon(Err("late".into())), Err("late".to_string()));
    assert!(is_loading(&m));
}

#[test]
fn read_stream_port_from_file_contents() {
    let m = BrowserManager::new(None);
    assert_eq!(m.read_stream_port("/d", Ok("4242\n")), Ok(4242));
    assert_eq!(
        m.read_stream_port("/d", Err("No such file or directory (os error 2)")),
        Err("Failed to read stream port file /d/cmux.stream: No such file or directory (os error 2)".to_string())
    );
}

#[test]
fn read_error_message() {
    assert_eq!(stream_port_read_error("/d/cmux.stream", "gone"), "Failed to read stream port file /d/cmux.stream: gone");
}

#[test]
fn overlay_labels() {
    assert_eq!(
        overlay_label(&PreviewState::Empty),
        Some(("No browser preview".to_string(), "preview-empty".to_string()))
    );
    assert_eq!(
        overlay_label(&PreviewState::Loading),
        Some(("Starting browser...".to_string(), "preview-empty".to_string()))
    );
    assert_eq!(overlay_label(&PreviewState::Connected), None);
    assert_eq!(overlay_label(&PreviewState::Streaming), None);
    assert_eq!(
        overlay_label(&PreviewState::Error("bad".into())),
        Some(("bad".to_string(), "preview-error".to_string()))
    );
}

#[test]
fn frames_decode_base64_data() {
    assert_eq!(frame_bytes(Some("frame"), Some("aGk=")), Some(b"hi".to_vec()));
    assert_eq!(frame_bytes(Some("frame"), Some("")), Some(Vec::new()));
    assert_eq!(frame_bytes(Some("status"), Some("aGk=")), None);
    assert_eq!(frame_bytes(None, Some("aGk=")), None);
    assert_eq!(frame_bytes(Some("frame"), None), None);
    assert_eq!(frame_bytes(Some("frame"), Some("not base64!")), None);
}

#[test]
fn reaping() {
    assert_eq!(reap_action(ChildPoll::Exited, 0), ReapAction::Stop);
    assert_eq!(reap_action(ChildPoll::Failed, 5_000_000_000), ReapAction::Stop);
    assert_eq!(reap_action(ChildPoll::Running, 2_000_000_000), ReapAction::Sleep(100));
    assert_eq!(reap_action(ChildPoll::Running, 2_000_000_001), ReapAction::Kill);
}

#[test]
fn preview_state_equality() {
    assert_eq!(PreviewState::Error("a".into()), PreviewState::Error("a".into()));
    assert_ne!(PreviewState::Error("a".into()), PreviewState::Error("b".into()));
    assert_ne!(PreviewState::Empty, PreviewState::Loading);
    assert_eq!(PreviewState::Streaming.clone(), PreviewState::Streaming);
}

#[test]
fn stream_messages_give_frames() {
    assert_eq!(stream_message_frame("{\"type\":\"frame\",\"data\":\"aGk=\"}"), Some(b"hi".to_vec()));
    assert_eq!(stream_message_frame("{\"type\":\"status\",\"data\":\"aGk=\"}"), None);
    assert_eq!(stream_message_frame("{\"type\":\"frame\",\"data\":7}"), None);
    assert_eq!(stream_message_frame("{\"type\":\"frame\"}"), None);
    assert_eq!(stream_message_frame("not json"), None);
}
