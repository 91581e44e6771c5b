use cmux::bootstrap::{bootstrap_start, bootstrap_step, BootstrapAction, BootstrapEvent, BootstrapPhase};
use cmux::protocol::{
    bare_command, close_command, key_down, key_up, motion_due, motion_request, mouse_click,
    mouse_wheel, navigate, navigation_steps, normalize_url, request_fields, request_id,
    snapshot_text, viewport, DaemonCommand, Param, SnapshotReply, fields_line, request_line,
    parse_response, reply_outcome,
};

fn render(p: &Param) -> String {
    match p {
        Param::Bool(b) => format!("{b}"),
        Param::Int(i) => format!("{i}"),
        Param::Str(s) => format!("{s:?}"),
    }
}

fn fields(fs: &[(String, Param)]) -> Vec<String> {
    fs.iter().map(|(k, v)| format!("{k}={}", render(v))).collect()
}

fn show(c: &DaemonCommand) -> String {
    format!("{}({})", c.action, fields(&c.params).join(","))
}

#[test]
fn request_ids() {
    assert_eq!(request_id(123), "cmux-123");
    assert_eq!(request_id(0), "cmux-0");
    assert_eq!(request_id(u64::MAX), "cmux-18446744073709551615");
}

#[test]
fn request_fields_put_id_and_action_last() {
    let r = request_fields(&navigate("https://a"), "cmux-5");
    assert_eq!(fields(&r), vec!["url=\"https://a\"", "id=\"cmux-5\"", "action=\"navigate\""]);
}

#[test]
fn request_fields_replace_reserved_params() {
    let r = request_fields(&close_command(), "cmux-9");
    assert_eq!(fields(&r), vec!["id=\"cmux-9\"", "action=\"close\""]);
}

#[test]
fn normalize_adds_https() {
    assert_eq!(normalize_url("example.com"), Some("https://example.com".to_string()));
    assert_eq!(normalize_url("http://x.org/a"), Some("http://x.org/a".to_string()));
    assert_eq!(normalize_url("file:///tmp"), Some("file:///tmp".to_string()));
    assert_eq!(normalize_url(""), None);
}

#[test]
fn normalize_twice_is_normalize_once() {
    let once = normalize_url("example.com").unwrap();
    assert_eq!(normalize_url(&once), Some(once.clone()));
}

#[test]
fn navigation_with_viewport() {
    let (url, cs) = navigation_steps("example.com", 800, 600).unwrap();
    assert_eq!(url, "https://example.com");
    let shown: Vec<String> = cs.iter().map(show).collect();
    assert_eq!(shown, vec!["viewport(width=800,height=600)", "navigate(url=\"https://example.com\")"]);
}

#[test]
fn navigation_without_size_skips_viewport() {
    let (_, cs) = navigation_steps("a.b", 0, 600).unwrap();
    assert_eq!(cs.len(), 1);
    assert_eq!(show(&cs[0]), "navigate(url=\"https://a.b\")");
    assert!(navigation_steps("", 10, 10).is_none());
}

#[test]
fn click_is_press_then_release() {
    let cs = mouse_click(10, 20);
    let shown: Vec<String> = cs.iter().map(show).collect();
    assert_eq!(
        shown,
        vec![
            "input_mouse(type=\"mousePressed\",x=10,y=20,button=\"left\",clickCount=1)",
            "input_mouse(type=\"mouseReleased\",x=10,y=20,button=\"left\",clickCount=1)",
        ]
    );
}

#[test]
fn wheel_at_page_centre() {
    assert_eq!(
        show(&mouse_wheel(801, 600, 120)),
        "input_mouse(type=\"mouseWheel\",x=400,y=300,deltaX=0,deltaY=120)"
    );
    assert_eq!(
        show(&mouse_wheel(-3, 0, -240)),
        "input_mouse(type=\"mouseWheel\",x=-1,y=0,deltaX=0,deltaY=-240)"
    );
}

#[test]
fn motion_request_and_throttle() {
    assert_eq!(
        fields(&motion_request(5, 6)),
        vec!["id=\"motion\"", "action=\"input_mouse\"", "type=\"mouseMoved\"", "x=5", "y=6"]
    );
    assert!(!motion_due(59_999_999));
    assert!(motion_due(60_000_000));
}

#[test]
fn key_events() {
    assert_eq!(
        show(&key_down("a", "KeyA", 0, false)),
        "input_keyboard(type=\"keyDown\",key=\"a\",code=\"KeyA\",modifiers=0,text=\"a\")"
    );
    assert_eq!(
        show(&key_down("a", "KeyA", 2, true)),
        "input_keyboard(type=\"keyDown\",key=\"a\",code=\"KeyA\",modifiers=2)"
    );
    assert_eq!(
        show(&key_down("Enter", "Enter", 0, false)),
        "input_keyboard(type=\"keyDown\",key=\"Enter\",code=\"Enter\",modifiers=0)"
    );
    assert_eq!(
        show(&key_down("é", "é", 0, false)),
        "input_keyboard(type=\"keyDown\",key=\"é\",code=\"é\",modifiers=0)"
    );
    assert_eq!(
        show(&key_up("Tab", "Tab", 8)),
        "input_keyboard(type=\"keyUp\",key=\"Tab\",code=\"Tab\",modifiers=8)"
    );
}

#[test]
fn simple_commands() {
    assert_eq!(show(&bare_command("reload")), "reload()");
    assert_eq!(show(&viewport(1, 2)), "viewport(width=1,height=2)");
}

#[test]
fn snapshot_text_prefers_data_then_result() {
    let r = SnapshotReply { data: Some("d".into()), result: Some("r".into()), pretty: "p".into() };
    assert_eq!(snapshot_text(Ok(r)), "d");
    let r = SnapshotReply { data: None, result: Some("r".into()), pretty: "p".into() };
    assert_eq!(snapshot_text(Ok(r)), "r");
    let r = SnapshotReply { data: None, result: None, pretty: "{}".into() };
    assert_eq!(snapshot_text(Ok(r)), "{}");
    assert_eq!(snapshot_text(Err("boom")), "Snapshot error: boom");
}

fn run(connects: &[bool], replies: &[Result<(), String>]) -> (Vec<String>, Result<(), String>, usize) {
    let (mut phase, mut action) = bootstrap_start();
    let mut sent = Vec::new();
    let mut ci = 0;
    let mut ri = 0;
    let mut pauses = 0;
    loop {
        let event = match action {
            BootstrapAction::TryConnect => {
                let ok = connects.get(ci).copied().unwrap_or(false);
                ci += 1;
                BootstrapEvent::Connected(ok)
            }
            BootstrapAction::Pause(ms) => {
                assert_eq!(ms, 200);
                pauses += 1;
                BootstrapEvent::Paused
            }
            BootstrapAction::Send(c) => {
                sent.push(show(&c));
                let r = replies.get(ri).cloned().unwrap_or(Ok(()));
                ri += 1;
                BootstrapEvent::Replied(r)
            }
            BootstrapAction::Done(r) => {
                assert_eq!(phase, BootstrapPhase::Finished);
                return (sent, r, pauses);
            }
        };
        let next = bootstrap_step(phase, event);
        phase = next.0;
        action = next.1;
    }
}

#[test]
fn bootstrap_sends_initial_commands_in_order() {
    let (sent, r, pauses) = run(&[false, false, true, true], &[]);
    assert_eq!(r, Ok(()));
    assert_eq!(pauses, 2);
    assert_eq!(
        sent,
        vec![
            "stream_enable()",
            "launch(headless=true)",
            "navigate(url=\"about:blank\")",
            "screencast_start(format=\"jpeg\",quality=80)",
        ]
    );
}

#[test]
fn bootstrap_times_out_after_fifty_polls() {
    let (sent, r, pauses) = run(&[], &[]);
    assert_eq!(r, Err("agent-browser daemon failed to start within 10 seconds".to_string()));
    assert_eq!(pauses, 50);
    assert!(sent.is_empty());
}

#[test]
fn bootstrap_final_check_failure() {
    let (_, r, _) = run(&[true, false], &[]);
    assert_eq!(r, Err("agent-browser daemon failed to start within 10 seconds".to_string()));
}

#[test]
fn bootstrap_fails_only_on_navigate() {
    let (sent, r, _) = run(
        &[true, true],
        &[Err("x".into()), Err("y".into()), Err("boom".into())],
    );
    assert_eq!(r, Err("navigate failed: boom".to_string()));
    assert_eq!(sent.len(), 3);
    let (sent, r, _) = run(&[true, true], &[Ok(()), Ok(()), Ok(()), Err("late".into())]);
    assert_eq!(r, Ok(()));
    assert_eq!(sent.len(), 4);
}

#[test]
fn request_lines_are_compact_json_objects() {
    let fields = vec![
        ("b".to_string(), Param::Int(2)),
        ("a".to_string(), Param::Bool(true)),
        ("s".to_string(), Param::Str("q\"".to_string())),
    ];
    assert_eq!(fields_line(&fields), "{\"a\":true,\"b\":2,\"s\":\"q\\\"\"}\n");
    let cmd = DaemonCommand {
        action: "navigate".to_string(),
        params: vec![("url".to_string(), Param::Str("https://x".to_string())), ("id".to_string(), Param::Int(1))],
    };
    assert_eq!(
        request_line(&cmd, "cmux-7"),
        "{\"action\":\"navigate\",\"id\":\"cmux-7\",\"url\":\"https://x\"}\n"
    );
}

#[test]
fn replies_are_parsed_or_reported() {
    let r = parse_response("{\"data\":\"d\",\"x\":1}\n").unwrap();
    assert_eq!(r.data, Some("d".to_string()));
    assert_eq!(r.result, None);
    assert_eq!(r.pretty, "{\n  \"data\": \"d\",\n  \"x\": 1\n}");
    let r = parse_response("{\"result\":\"ok\",\"data\":3}").unwrap();
    assert_eq!(r.data, None);
    assert_eq!(r.result, Some("ok".to_string()));
    let e = parse_response("nope").err().unwrap();
    assert!(e.starts_with("Failed to parse response: "));
    assert!(e.len() > "Failed to parse response: ".len());
    let e = reply_outcome(Err("bad".to_string())).err().unwrap();
    assert_eq!(e, "Failed to parse response: bad");
}
