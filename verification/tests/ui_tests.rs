use cmux::keys::{cdp_modifiers, ctrl_held, keyval_to_cdp};
use cmux::menus::{
    accelerators, build_browser_context_menu, build_hamburger_menu, build_sidebar_context_menu,
    build_terminal_context_menu, default_config_text, install_payload, install_script_candidates,
    preferences_editor, registered_actions, shell_quote, shortcut_sections, terminal_candidates,
    terminal_command,
};
use cmux::workspace::{
    can_close_workspace, close_confirmed, latest_row_index, rename_outcome, shortcut_command,
    FocusDirection, ShortcutAction, UiCommand,
};

fn kv(k: u32, u: Option<char>) -> (String, String) {
    keyval_to_cdp(k, u)
}

#[test]
fn named_keys() {
    assert_eq!(kv(0xff0d, None), ("Enter".into(), "Enter".into()));
    assert_eq!(kv(0xff8d, None), ("Enter".into(), "Enter".into()));
    assert_eq!(kv(0xff08, None), ("Backspace".into(), "Backspace".into()));
    assert_eq!(kv(0xff51, None), ("ArrowLeft".into(), "ArrowLeft".into()));
    assert_eq!(kv(0x20, Some(' ')), (" ".into(), "Space".into()));
    assert_eq!(kv(0xffbe, None), ("F1".into(), "F1".into()));
    assert_eq!(kv(0xffc9, None), ("F12".into(), "F12".into()));
}

#[test]
fn character_keys() {
    assert_eq!(kv(0x61, Some('a')), ("a".into(), "KeyA".into()));
    assert_eq!(kv(0x5a, Some('Z')), ("Z".into(), "KeyZ".into()));
    assert_eq!(kv(0x37, Some('7')), ("7".into(), "Digit7".into()));
    assert_eq!(kv(0x21, Some('!')), ("!".into(), "!".into()));
    assert_eq!(kv(0xe9, Some('é')), ("é".into(), "é".into()));
    assert_eq!(kv(0xffe1, None), (String::new(), String::new()));
}

#[test]
fn modifier_masks() {
    assert_eq!(cdp_modifiers(0), 0);
    assert_eq!(cdp_modifiers(1), 8);
    assert_eq!(cdp_modifiers(4), 2);
    assert_eq!(cdp_modifiers(8), 1);
    assert_eq!(cdp_modifiers(1 | 4 | 8 | 16), 11);
    assert_eq!(cdp_modifiers(1 << 28), 4);
    assert_eq!(cdp_modifiers(1 | 4 | 8 | (1 << 28)), 15);
    assert!(ctrl_held(4 | 1));
    assert!(!ctrl_held(8));
}

fn labels(v: &[cmux::menus::MenuItem]) -> Vec<(String, String)> {
    v.iter().map(|i| (i.label.clone(), i.action.clone())).collect()
}

#[test]
fn menus_reference_registered_actions() {
    let reg = registered_actions();
    let enabled = |a: &str| reg.iter().any(|(n, e)| n == a && *e);
    let known = |a: &str| reg.iter().any(|(n, _)| n == a);
    for sec in build_hamburger_menu() {
        for item in sec {
            assert!(enabled(&item.action), "{}", item.action);
        }
    }
    for sec in build_terminal_context_menu() {
        for item in sec {
            assert!(enabled(&item.action));
        }
    }
    for item in build_sidebar_context_menu() {
        assert!(enabled(&item.action));
    }
    for item in build_browser_context_menu() {
        assert!(known(&item.action));
    }
    for (action, _) in accelerators() {
        assert!(known(&action));
    }
}

#[test]
fn menu_contents() {
    let h = build_hamburger_menu();
    assert_eq!(h.len(), 6);
    assert_eq!(labels(&h[0])[0], ("New Pane (Split Right)".into(), "win.split-right".into()));
    assert!(h.iter().flatten().all(|i| i.action != "win.find"));
    assert_eq!(labels(&h[5]), vec![("Quit".to_string(), "app.quit".to_string())]);
    assert_eq!(build_sidebar_context_menu().len(), 4);
    assert_eq!(build_terminal_context_menu().len(), 3);
    assert_eq!(labels(&build_browser_context_menu())[1], ("Copy URL".into(), "win.copy-url".into()));
    let acc = accelerators();
    assert_eq!(acc.len(), 13);
    assert_eq!(acc[0], ("win.new-workspace".to_string(), "<Ctrl>n".to_string()));
    let mut keys: Vec<&String> = acc.iter().map(|(_, k)| k).collect();
    keys.sort();
    keys.dedup();
    assert_eq!(keys.len(), 13);
    let s = shortcut_sections();
    assert_eq!(s.len(), 5);
    assert_eq!(s[4], ("General".to_string(), vec![("Ctrl+Q".to_string(), "Quit".to_string())]));
}

#[test]
fn quoting_for_bash() {
    assert_eq!(shell_quote("it's"), "'it'\\''s'");
    assert_eq!(shell_quote(""), "''");
    assert_eq!(shell_quote("/a b/$x"), "'/a b/$x'");
    assert_eq!(
        install_payload("/s.sh"),
        "'/s.sh' ; echo ; read -p 'Press Enter to close…' _"
    );
}

#[test]
fn terminals() {
    assert_eq!(terminal_candidates(Some("")).len(), 7);
    let t = terminal_candidates(Some("my-term"));
    assert_eq!(t[0], "my-term");
    assert_eq!(t[1], "kitty");
    assert_eq!(t.len(), 8);
    assert_eq!(
        terminal_command(" wezterm ", "x"),
        ("wezterm".to_string(), vec!["start".to_string(), "--".into(), "bash".into(), "-lc".into(), "x".into()])
    );
    assert_eq!(
        terminal_command("gnome-terminal", "x").1,
        vec!["--".to_string(), "bash".into(), "-lc".into(), "x".into()]
    );
    assert_eq!(
        terminal_command("xterm", "x").1,
        vec!["-e".to_string(), "bash".into(), "-lc".into(), "x".into()]
    );
    assert_eq!(
        install_script_candidates(Some("/opt/cmux/bin")),
        vec!["/opt/cmux/bin/../scripts/install-chromium.sh", "/usr/share/cmux/scripts/install-chromium.sh"]
    );
    assert_eq!(preferences_editor(None), "xdg-open");
    assert_eq!(preferences_editor(Some("vim")), "vim");
    assert_eq!(default_config_text(), "# cmux configuration\n# See documentation for options\n");
}

#[test]
fn shortcut_dispatch() {
    assert_eq!(shortcut_command(None), None);
    assert_eq!(shortcut_command(Some(ShortcutAction::Workspace1)), Some(UiCommand::SwitchToWorkspace(0)));
    assert_eq!(shortcut_command(Some(ShortcutAction::Workspace9)), Some(UiCommand::SwitchToWorkspace(8)));
    assert_eq!(shortcut_command(Some(ShortcutAction::SplitDown)), Some(UiCommand::Split { vertical: true }));
    assert_eq!(shortcut_command(Some(ShortcutAction::SplitRight)), Some(UiCommand::Split { vertical: false }));
    assert_eq!(
        shortcut_command(Some(ShortcutAction::FocusUp)),
        Some(UiCommand::Focus(FocusDirection::Up))
    );
}

#[test]
fn workspace_rules() {
    assert!(!can_close_workspace(1));
    assert!(!can_close_workspace(0));
    assert!(can_close_workspace(2));
    assert!(close_confirmed(Some(1)));
    assert!(!close_confirmed(Some(0)));
    assert!(!close_confirmed(None));
    assert_eq!(latest_row_index(0), None);
    assert_eq!(latest_row_index(3), Some(2));
    assert_eq!(rename_outcome("  New name  "), (Some("New name".to_string()), "New name".to_string()));
    assert_eq!(rename_outcome("   "), (None, "   ".to_string()));
}
