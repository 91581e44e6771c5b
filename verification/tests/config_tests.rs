use cmux::config_file::{escape_toml, is_chromium_path_key_line, rewrite_chromium_path};
use cmux::settings::{atomic_temp_name, not_a_file_message, override_value, save_status};

#[test]
fn rewrite_appends_section_to_empty_file() {
    assert_eq!(
        rewrite_chromium_path("", Some("/usr/bin/chromium")),
        "\n[browser]\nchromium_path = \"/usr/bin/chromium\"\n"
    );
}

#[test]
fn rewrite_replaces_existing_entry() {
    let existing = "[browser]\nchromium_path = \"/old\"\n";
    assert_eq!(
        rewrite_chromium_path(existing, Some("/new")),
        "[browser]\nchromium_path = \"/new\"\n"
    );
}

#[test]
fn rewrite_clears_existing_entry() {
    let existing = "[browser]\nchromium_path = \"/old\"\nfoo = 1\n";
    assert_eq!(rewrite_chromium_path(existing, None), "[browser]\nfoo = 1\n");
}

#[test]
fn rewrite_inserts_right_after_the_header() {
    let existing = "[browser]\nfoo = 1\n[other]\nx = 2\n";
    assert_eq!(
        rewrite_chromium_path(existing, Some("/p")),
        "[browser]\nchromium_path = \"/p\"\nfoo = 1\n[other]\nx = 2\n"
    );
    assert_eq!(
        rewrite_chromium_path("[browser]\nheadless = true\n[ui]\n", Some("/c")),
        "[browser]\nchromium_path = \"/c\"\nheadless = true\n[ui]\n"
    );
}

#[test]
fn rewrite_replaces_in_place() {
    let existing = "[browser]\nfoo = 1\nchromium_path = \"old\"\nbar = 2\n";
    assert_eq!(
        rewrite_chromium_path(existing, Some("/p")),
        "[browser]\nfoo = 1\nchromium_path = \"/p\"\nbar = 2\n"
    );
}

#[test]
fn rewrite_inserts_at_end_of_final_browser_section() {
    assert_eq!(
        rewrite_chromium_path("[browser]\n", Some("/p")),
        "[browser]\nchromium_path = \"/p\"\n"
    );
}

#[test]
fn rewrite_terminates_unterminated_last_line() {
    assert_eq!(
        rewrite_chromium_path("[general]\na = 1", Some("/p")),
        "[general]\na = 1\n\n[browser]\nchromium_path = \"/p\"\n"
    );
}

#[test]
fn rewrite_keeps_longer_keys() {
    assert_eq!(
        rewrite_chromium_path("[browser]\nchromium_path_extra = 1\n", Some("/p")),
        "[browser]\nchromium_path = \"/p\"\nchromium_path_extra = 1\n"
    );
}

#[test]
fn rewrite_ignores_entries_outside_browser_section() {
    assert_eq!(
        rewrite_chromium_path("chromium_path = \"x\"\n[browser]\n", Some("/p")),
        "chromium_path = \"x\"\n[browser]\nchromium_path = \"/p\"\n"
    );
}

#[test]
fn rewrite_normalizes_crlf_line_endings() {
    assert_eq!(
        rewrite_chromium_path("[browser]\r\nchromium_path = \"a\"\r\n", Some("/b")),
        "[browser]\nchromium_path = \"/b\"\n"
    );
}

#[test]
fn rewrite_clear_without_section_keeps_text() {
    assert_eq!(rewrite_chromium_path("a = 1\n", None), "a = 1\n");
    assert_eq!(rewrite_chromium_path("", None), "");
}

#[test]
fn rewrite_escapes_value() {
    assert_eq!(
        rewrite_chromium_path("[browser]\n", Some("C:\\a \"b\"")),
        "[browser]\nchromium_path = \"C:\\\\a \\\"b\\\"\"\n"
    );
}

#[test]
fn rewrite_writes_only_one_entry_with_two_browser_sections() {
    let existing = "[browser]\nchromium_path = \"1\"\n[x]\n[browser]\nchromium_path = \"2\"\n";
    assert_eq!(
        rewrite_chromium_path(existing, Some("/p")),
        "[browser]\nchromium_path = \"/p\"\n[x]\n[browser]\n"
    );
}

#[test]
fn rewrite_result_reads_back_one_entry() {
    // a reader finds exactly one entry in the [browser] sections
    let out = rewrite_chromium_path("[browser]\nchromium_path = \"a\"\nchromium_path = \"b\"\n", Some("/v"));
    let mut in_browser = false;
    let mut found = Vec::new();
    for line in out.lines() {
        let t = line.trim();
        if t.starts_with('[') && t.ends_with(']') {
            in_browser = t == "[browser]";
        } else if in_browser && is_chromium_path_key_line(t) {
            found.push(t.to_string());
        }
    }
    assert_eq!(found, vec!["chromium_path = \"/v\"".to_string()]);
}

#[test]
fn rewrite_is_stable_when_repeated() {
    let once = rewrite_chromium_path("[a]\nx = 1\n", Some("/p"));
    let twice = rewrite_chromium_path(&once, Some("/p"));
    assert_eq!(once, twice);
    let files = [
        "[browser]\nheadless = true\n[ui]\n",
        "[browser]\nchromium_path = \"x\"\n[x]\n[browser]\nchromium_path = \"y\"\n",
        "[browser]\r\nchromium_path = 'q'\r\nz = 1",
        "",
    ];
    for f in files {
        for v in [Some("/c"), Some("C:\\a \"b\""), None] {
            let once = rewrite_chromium_path(f, v);
            assert_eq!(rewrite_chromium_path(&once, v), once);
        }
    }
}

#[test]
fn escape_toml_escapes_backslash_and_quote() {
    assert_eq!(escape_toml("a\\b\"c"), "a\\\\b\\\"c");
    assert_eq!(escape_toml("plain"), "plain");
}

#[test]
fn key_detection_requires_exact_key() {
    assert!(is_chromium_path_key_line("chromium_path = 1"));
    assert!(is_chromium_path_key_line("chromium_path   =x"));
    assert!(is_chromium_path_key_line("chromium_path="));
    assert!(!is_chromium_path_key_line("chromium_pathfinder = 1"));
    assert!(!is_chromium_path_key_line("chromium_path_extra = 1"));
    assert!(!is_chromium_path_key_line("chromium_path"));
    assert!(!is_chromium_path_key_line("# chromium_path = 1"));
}

#[test]
fn override_value_trims_and_clears() {
    assert_eq!(override_value("  /usr/bin/chromium \n"), Some("/usr/bin/chromium".to_string()));
    assert_eq!(override_value("   "), None);
    assert_eq!(override_value(""), None);
}

#[test]
fn settings_messages() {
    assert_eq!(
        not_a_file_message("/x"),
        "Path is not a file: /x (saved anyway — fix before next browser open)"
    );
    assert_eq!(save_status(Ok(())), "Saved. Close any open browser pane to apply.");
    assert_eq!(save_status(Err("denied")), "Failed to save: denied");
}

#[test]
fn temp_file_name() {
    assert_eq!(atomic_temp_name(Some("config.toml"), 42), ".config.toml.cmux-settings.42.tmp");
    assert_eq!(atomic_temp_name(None, 7), ".config.cmux-settings.7.tmp");
}

fn without_browser_entries(text: &str) -> Vec<String> {
    let mut in_browser = false;
    let mut kept = Vec::new();
    for line in text.lines() {
        let t = line.trim();
        if t.starts_with('[') && t.ends_with(']') {
            in_browser = t == "[browser]";
        } else if in_browser && is_chromium_path_key_line(t) {
            continue;
        }
        kept.push(line.to_string());
    }
    kept
}

#[test]
fn rewrite_keeps_every_other_line() {
    let existing = "# top\n[browser]\nzoom = 2\nchromium_path = \"/a\"\n[ui]\nchromium_path = \"/x\"\n";
    for value in [Some("/new"), None] {
        let out = rewrite_chromium_path(existing, value);
        assert_eq!(without_browser_entries(&out), without_browser_entries(existing));
    }
    let existing = "[ui]\ntheme = 1\n";
    let out = rewrite_chromium_path(existing, Some("/p"));
    let mut want = without_browser_entries(existing);
    want.push(String::new());
    want.push("[browser]".to_string());
    assert_eq!(without_browser_entries(&out), want);
}
