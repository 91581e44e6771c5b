//! The application's actions, keyboard accelerators and menus, the
//! keyboard-shortcuts overview, and the plumbing of the "download
//! Chromium" and "preferences" actions.

use vstd::prelude::*;
use crate::paths::join;
use crate::text::{chars_of, push_str, string_from_chars, string_of, trim, trim_str};

verus! {

pub type Pair = (Seq<char>, Seq<char>);

/// A menu entry: its label and the action it activates.
pub struct MenuItem {
    pub label: String,
    pub action: String,
}

pub open spec fn items_view(v: Seq<MenuItem>) -> Seq<Pair> {
    v.map_values(|i: MenuItem| (i.label@, i.action@))
}

pub open spec fn sections_view(v: Seq<Vec<MenuItem>>) -> Seq<Seq<Pair>> {
    v.map_values(|s: Vec<MenuItem>| items_view(s@))
}

pub open spec fn pairs_view(v: Seq<(String, String)>) -> Seq<Pair> {
    v.map_values(|p: (String, String)| (p.0@, p.1@))
}

fn push_item(v: &mut Vec<MenuItem>, label: &str, action: &str)
    ensures
        items_view(final(v)@) == items_view(old(v)@).push((label@, action@)),
{
    v.push(MenuItem { label: string_of(label), action: string_of(action) });
    assert(items_view(final(v)@) =~= items_view(old(v)@).push((label@, action@)));
}

fn push_pair(v: &mut Vec<(String, String)>, a: &str, b: &str)
    ensures
        pairs_view(final(v)@) == pairs_view(old(v)@).push((a@, b@)),
{
    v.push((string_of(a), string_of(b)));
    assert(pairs_view(final(v)@) =~= pairs_view(old(v)@).push((a@, b@)));
}

fn push_section(v: &mut Vec<Vec<MenuItem>>, s: Vec<MenuItem>)
    ensures
        sections_view(final(v)@) == sections_view(old(v)@).push(items_view(s@)),
{
    let ghost sv = items_view(s@);
    v.push(s);
    assert(sections_view(final(v)@) =~= sections_view(old(v)@).push(sv));
}

/// Every action, with whether it is enabled: the window actions (`win.`)
/// and the application's `app.quit`.
pub open spec fn registered_model() -> Seq<(Seq<char>, bool)> {
    seq![
        ("win.new-workspace"@, true),
        ("win.new-ssh-workspace"@, true),
        ("win.browser-open"@, true),
        ("win.close-pane"@, true),
        ("win.close-workspace"@, true),
        ("win.copy"@, true),
        ("win.paste"@, true),
        ("win.find"@, false),
        ("win.browser-settings"@, true),
        ("win.download-chromium"@, true),
        ("win.preferences"@, true),
        ("win.toggle-sidebar"@, true),
        ("win.split-right"@, true),
        ("win.split-down"@, true),
        ("win.rename-workspace"@, true),
        ("win.keyboard-shortcuts"@, true),
        ("win.about"@, true),
        ("app.quit"@, true),
        ("win.open-external-browser"@, false),
        ("win.copy-url"@, false),
    ]
}

pub open spec fn flags_view(v: Seq<(String, bool)>) -> Seq<(Seq<char>, bool)> {
    v.map_values(|p: (String, bool)| (p.0@, p.1))
}

pub fn registered_actions() -> (r: Vec<(String, bool)>)
    ensures
        flags_view(r@) == registered_model(),
{
    let mut v: Vec<(String, bool)> = Vec::new();
    v.push((string_of("win.new-workspace"), true));
    v.push((string_of("win.new-ssh-workspace"), true));
    v.push((string_of("win.browser-open"), true));
    v.push((string_of("win.close-pane"), true));
    v.push((string_of("win.close-workspace"), true));
    v.push((string_of("win.copy"), true));
    v.push((string_of("win.paste"), true));
    v.push((string_of("win.find"), false));
    v.push((string_of("win.browser-settings"), true));
    v.push((string_of("win.download-chromium"), true));
    v.push((string_of("win.preferences"), true));
    v.push((string_of("win.toggle-sidebar"), true));
    v.push((string_of("win.split-right"), true));
    v.push((string_of("win.split-down"), true));
    v.push((string_of("win.rename-workspace"), true));
    v.push((string_of("win.keyboard-shortcuts"), true));
    v.push((string_of("win.about"), true));
    v.push((string_of("app.quit"), true));
    v.push((string_of("win.open-external-browser"), false));
    v.push((string_of("win.copy-url"), false));
    assert(flags_view(v@) =~= registered_model());
    v
}

/// The keyboard accelerator of each action that has one, as (action,
/// accelerator).
pub open spec fn accelerators_model() -> Seq<Pair> {
    seq![
        ("win.new-workspace"@, "<Ctrl>n"@),
        ("win.close-workspace"@, "<Ctrl><Shift>w"@),
        ("win.new-ssh-workspace"@, "<Ctrl><Shift>s"@),
        ("win.browser-open"@, "<Ctrl><Shift>b"@),
        ("win.close-pane"@, "<Ctrl><Shift>x"@),
        ("win.toggle-sidebar"@, "<Ctrl>b"@),
        ("win.split-right"@, "<Ctrl>d"@),
        ("win.split-down"@, "<Ctrl><Shift>d"@),
        ("win.copy"@, "<Ctrl><Shift>c"@),
        ("win.paste"@, "<Ctrl><Shift>v"@),
        ("win.find"@, "<Ctrl>f"@),
        ("win.rename-workspace"@, "<Ctrl><Shift>r"@),
        ("app.quit"@, "<Ctrl>q"@),
    ]
}

pub fn accelerators() -> (r: Vec<(String, String)>)
    ensures
        pairs_view(r@) == accelerators_model(),
{
    let mut v: Vec<(String, String)> = Vec::new();
    push_pair(&mut v, "win.new-workspace", "<Ctrl>n");
    push_pair(&mut v, "win.close-workspace", "<Ctrl><Shift>w");
    push_pair(&mut v, "win.new-ssh-workspace", "<Ctrl><Shift>s");
    push_pair(&mut v, "win.browser-open", "<Ctrl><Shift>b");
    push_pair(&mut v, "win.close-pane", "<Ctrl><Shift>x");
    push_pair(&mut v, "win.toggle-sidebar", "<Ctrl>b");
    push_pair(&mut v, "win.split-right", "<Ctrl>d");
    push_pair(&mut v, "win.split-down", "<Ctrl><Shift>d");
    push_pair(&mut v, "win.copy", "<Ctrl><Shift>c");
    push_pair(&mut v, "win.paste", "<Ctrl><Shift>v");
    push_pair(&mut v, "win.find", "<Ctrl>f");
    push_pair(&mut v, "win.rename-workspace", "<Ctrl><Shift>r");
    push_pair(&mut v, "app.quit", "<Ctrl>q");
    assert(pairs_view(v@) =~= accelerators_model());
    v
}

/// The main menu, section by section, separated without headers: panes
/// and workspaces, closing, editing, view and configuration, help, quit.
pub open spec fn hamburger_model() -> Seq<Seq<Pair>> {
    seq![
        seq![
            ("New Pane (Split Right)"@, "win.split-right"@),
            ("New Pane Below (Split Down)"@, "win.split-down"@),
            ("New Workspace"@, "win.new-workspace"@),
            ("New SSH Workspace…"@, "win.new-ssh-workspace"@),
            ("New Browser"@, "win.browser-open"@),
        ],
        seq![
            ("Close Pane"@, "win.close-pane"@),
            ("Close Workspace"@, "win.close-workspace"@),
        ],
        seq![
            ("Copy"@, "win.copy"@),
            ("Paste"@, "win.paste"@),
        ],
        seq![
            ("Toggle Sidebar"@, "win.toggle-sidebar"@),
            ("Browser Settings…"@, "win.browser-settings"@),
            ("Download Bundled Chromium…"@, "win.download-chromium"@),
            ("Preferences"@, "win.preferences"@),
        ],
        seq![
            ("Keyboard Shortcuts"@, "win.keyboard-shortcuts"@),
            ("About cmux"@, "win.about"@),
        ],
        seq![
            ("Quit"@, "app.quit"@),
        ],
    ]
}

pub fn build_hamburger_menu() -> (r: Vec<Vec<MenuItem>>)
    ensures
        sections_view(r@) == hamburger_model(),
{
    let mut v: Vec<Vec<MenuItem>> = Vec::new();
    let mut s0: Vec<MenuItem> = Vec::new();
    push_item(&mut s0, "New Pane (Split Right)", "win.split-right");
    push_item(&mut s0, "New Pane Below (Split Down)", "win.split-down");
    push_item(&mut s0, "New Workspace", "win.new-workspace");
    push_item(&mut s0, "New SSH Workspace…", "win.new-ssh-workspace");
    push_item(&mut s0, "New Browser", "win.browser-open");
    assert(items_view(s0@) =~= seq![
        ("New Pane (Split Right)"@, "win.split-right"@),
        ("New Pane Below (Split Down)"@, "win.split-down"@),
        ("New Workspace"@, "win.new-workspace"@),
        ("New SSH Workspace…"@, "win.new-ssh-workspace"@),
        ("New Browser"@, "win.browser-open"@),
    ]);
    push_section(&mut v, s0);
    let mut s1: Vec<MenuItem> = Vec::new();
    push_item(&mut s1, "Close Pane", "win.close-pane");
    push_item(&mut s1, "Close Workspace", "win.close-workspace");
    assert(items_view(s1@) =~= seq![
        ("Close Pane"@, "win.close-pane"@),
        ("Close Workspace"@, "win.close-workspace"@),
    ]);
    push_section(&mut v, s1);
    let mut s2: Vec<MenuItem> = Vec::new();
    push_item(&mut s2, "Copy", "win.copy");
    push_item(&mut s2, "Paste", "win.paste");
    assert(items_view(s2@) =~= seq![
        ("Copy"@, "win.copy"@),
        ("Paste"@, "win.paste"@),
    ]);
    push_section(&mut v, s2);
    let mut s3: Vec<MenuItem> = Vec::new();
    push_item(&mut s3, "Toggle Sidebar", "win.toggle-sidebar");
    push_item(&mut s3, "Browser Settings…", "win.browser-settings");
    push_item(&mut s3, "Download Bundled Chromium…", "win.download-chromium");
    push_item(&mut s3, "Preferences", "win.preferences");
    assert(items_view(s3@) =~= seq![
        ("Toggle Sidebar"@, "win.toggle-sidebar"@),
        ("Browser Settings…"@, "win.browser-settings"@),
        ("Download Bundled Chromium…"@, "win.download-chromium"@),
        ("Preferences"@, "win.preferences"@),
    ]);
    push_section(&mut v, s3);
    let mut s4: Vec<MenuItem> = Vec::new();
    push_item(&mut s4, "Keyboard Shortcuts", "win.keyboard-shortcuts");
    push_item(&mut s4, "About cmux", "win.about");
    assert(items_view(s4@) =~= seq![
        ("Keyboard Shortcuts"@, "win.keyboard-shortcuts"@),
        ("About cmux"@, "win.about"@),
    ]);
    push_section(&mut v, s4);
    let mut s5: Vec<MenuItem> = Vec::new();
    push_item(&mut s5, "Quit", "app.quit");
    assert(items_view(s5@) =~= seq![
        ("Quit"@, "app.quit"@),
    ]);
    push_section(&mut v, s5);
    assert(sections_view(v@) =~~= hamburger_model());
    v
}

/// The context menu of a workspace row in the sidebar.
pub open spec fn sidebar_menu_model() -> Seq<Pair> {
    seq![
        ("Rename"@, "win.rename-workspace"@),
        ("Close"@, "win.close-workspace"@),
        ("Split Right"@, "win.split-right"@),
        ("Split Down"@, "win.split-down"@),
    ]
}

pub fn build_sidebar_context_menu() -> (r: Vec<MenuItem>)
    ensures
        items_view(r@) == sidebar_menu_model(),
{
    let mut v: Vec<MenuItem> = Vec::new();
    push_item(&mut v, "Rename", "win.rename-workspace");
    push_item(&mut v, "Close", "win.close-workspace");
    push_item(&mut v, "Split Right", "win.split-right");
    push_item(&mut v, "Split Down", "win.split-down");
    assert(items_view(v@) =~= sidebar_menu_model());
    v
}

/// The context menu of a terminal pane, section by section.
pub open spec fn terminal_menu_model() -> Seq<Seq<Pair>> {
    seq![
        seq![
            ("Copy"@, "win.copy"@),
            ("Paste"@, "win.paste"@),
        ],
        seq![
            ("Split Right"@, "win.split-right"@),
            ("Split Down"@, "win.split-down"@),
            ("Close Pane"@, "win.close-pane"@),
        ],
        seq![
            ("Open Browser Here"@, "win.browser-open"@),
        ],
    ]
}

pub fn build_terminal_context_menu() -> (r: Vec<Vec<MenuItem>>)
    ensures
        sections_view(r@) == terminal_menu_model(),
{
    let mut v: Vec<Vec<MenuItem>> = Vec::new();
    let mut s0: Vec<MenuItem> = Vec::new();
    push_item(&mut s0, "Copy", "win.copy");
    push_item(&mut s0, "Paste", "win.paste");
    assert(items_view(s0@) =~= seq![
        ("Copy"@, "win.copy"@),
        ("Paste"@, "win.paste"@),
    ]);
    push_section(&mut v, s0);
    let mut s1: Vec<MenuItem> = Vec::new();
    push_item(&mut s1, "Split Right", "win.split-right");
    push_item(&mut s1, "Split Down", "win.split-down");
    push_item(&mut s1, "Close Pane", "win.close-pane");
    assert(items_view(s1@) =~= seq![
        ("Split Right"@, "win.split-right"@),
        ("Split Down"@, "win.split-down"@),
        ("Close Pane"@, "win.close-pane"@),
    ]);
    push_section(&mut v, s1);
    let mut s2: Vec<MenuItem> = Vec::new();
    push_item(&mut s2, "Open Browser Here", "win.browser-open");
    assert(items_view(s2@) =~= seq![
        ("Open Browser Here"@, "win.browser-open"@),
    ]);
    push_section(&mut v, s2);
    assert(sections_view(v@) =~~= terminal_menu_model());
    v
}

/// The context menu of a browser preview pane.
pub open spec fn browser_menu_model() -> Seq<Pair> {
    seq![
        ("Open in External Browser"@, "win.open-external-browser"@),
        ("Copy URL"@, "win.copy-url"@),
        ("Close Pane"@, "win.close-pane"@),
    ]
}

pub fn build_browser_context_menu() -> (r: Vec<MenuItem>)
    ensures
        items_view(r@) == browser_menu_model(),
{
    let mut v: Vec<MenuItem> = Vec::new();
    push_item(&mut v, "Open in External Browser", "win.open-external-browser");
    push_item(&mut v, "Copy URL", "win.copy-url");
    push_item(&mut v, "Close Pane", "win.close-pane");
    assert(items_view(v@) =~= browser_menu_model());
    v
}

/// The keyboard-shortcuts overview: section titles, each with its
/// (keys, description) rows.
pub open spec fn shortcut_sections_model() -> Seq<(Seq<char>, Seq<Pair>)> {
    seq![
        ("Workspaces"@, seq![
            ("Ctrl+N"@, "New Workspace"@),
            ("Ctrl+Shift+W"@, "Close Workspace"@),
            ("Ctrl+]"@, "Next Workspace"@),
            ("Ctrl+["@, "Previous Workspace"@),
            ("Ctrl+Shift+R"@, "Rename Workspace"@),
            ("Ctrl+1…9"@, "Switch to Workspace 1–9"@),
        ]),
        ("Panes"@, seq![
            ("Ctrl+D"@, "Split Right (new pane)"@),
            ("Ctrl+Shift+D"@, "Split Down (new pane)"@),
            ("Ctrl+Shift+X"@, "Close Pane"@),
            ("Ctrl+Shift+←/→/↑/↓"@, "Focus pane in direction"@),
        ]),
        ("Edit"@, seq![
            ("Ctrl+Shift+C"@, "Copy"@),
            ("Ctrl+Shift+V"@, "Paste"@),
        ]),
        ("View"@, seq![
            ("Ctrl+B"@, "Toggle Sidebar"@),
            ("Ctrl+Shift+B"@, "Open Browser"@),
            ("Ctrl+Shift+S"@, "New SSH Workspace"@),
        ]),
        ("General"@, seq![
            ("Ctrl+Q"@, "Quit"@),
        ]),
    ]
}

pub open spec fn titled_view(v: Seq<(String, Vec<(String, String)>)>) -> Seq<(Seq<char>, Seq<Pair>)> {
    v.map_values(|p: (String, Vec<(String, String)>)| (p.0@, pairs_view(p.1@)))
}

pub fn shortcut_sections() -> (r: Vec<(String, Vec<(String, String)>)>)
    ensures
        titled_view(r@) == shortcut_sections_model(),
{
    let mut v: Vec<(String, Vec<(String, String)>)> = Vec::new();
    let mut s0: Vec<(String, String)> = Vec::new();
    push_pair(&mut s0, "Ctrl+N", "New Workspace");
    push_pair(&mut s0, "Ctrl+Shift+W", "Close Workspace");
    push_pair(&mut s0, "Ctrl+]", "Next Workspace");
    push_pair(&mut s0, "Ctrl+[", "Previous Workspace");
    push_pair(&mut s0, "Ctrl+Shift+R", "Rename Workspace");
    push_pair(&mut s0, "Ctrl+1…9", "Switch to Workspace 1–9");
    assert(pairs_view(s0@) =~= seq![
        ("Ctrl+N"@, "New Workspace"@),
        ("Ctrl+Shift+W"@, "Close Workspace"@),
        ("Ctrl+]"@, "Next Workspace"@),
        ("Ctrl+["@, "Previous Workspace"@),
        ("Ctrl+Shift+R"@, "Rename Workspace"@),
        ("Ctrl+1…9"@, "Switch to Workspace 1–9"@),
    ]);
    v.push((string_of("Workspaces"), s0));
    let mut s1: Vec<(String, String)> = Vec::new();
    push_pair(&mut s1, "Ctrl+D", "Split Right (new pane)");
    push_pair(&mut s1, "Ctrl+Shift+D", "Split Down (new pane)");
    push_pair(&mut s1, "Ctrl+Shift+X", "Close Pane");
    push_pair(&mut s1, "Ctrl+Shift+←/→/↑/↓", "Focus pane in direction");
    assert(pairs_view(s1@) =~= seq![
        ("Ctrl+D"@, "Split Right (new pane)"@),
        ("Ctrl+Shift+D"@, "Split Down (new pane)"@),
        ("Ctrl+Shift+X"@, "Close Pane"@),
        ("Ctrl+Shift+←/→/↑/↓"@, "Focus pane in direction"@),
    ]);
    v.push((string_of("Panes"), s1));
    let mut s2: Vec<(String, String)> = Vec::new();
    push_pair(&mut s2, "Ctrl+Shift+C", "Copy");
    push_pair(&mut s2, "Ctrl+Shift+V", "Paste");
    assert(pairs_view(s2@) =~= seq![
        ("Ctrl+Shift+C"@, "Copy"@),
        ("Ctrl+Shift+V"@, "Paste"@),
    ]);
    v.push((string_of("Edit"), s2));
    let mut s3: Vec<(String, String)> = Vec::new();
    push_pair(&mut s3, "Ctrl+B", "Toggle Sidebar");
    push_pair(&mut s3, "Ctrl+Shift+B", "Open Browser");
    push_pair(&mut s3, "Ctrl+Shift+S", "New SSH Workspace");
    assert(pairs_view(s3@) =~= seq![
        ("Ctrl+B"@, "Toggle Sidebar"@),
        ("Ctrl+Shift+B"@, "Open Browser"@),
        ("Ctrl+Shift+S"@, "New SSH Workspace"@),
    ]);
    v.push((string_of("View"), s3));
    let mut s4: Vec<(String, String)> = Vec::new();
    push_pair(&mut s4, "Ctrl+Q", "Quit");
    assert(pairs_view(s4@) =~= seq![
        ("Ctrl+Q"@, "Quit"@),
    ]);
    v.push((string_of("General"), s4));
    assert(titled_view(v@) =~~= shortcut_sections_model());
    v
}
/// Every entry of the main menu activates a registered, enabled action;
/// in particular the disabled Find is not offered there.
pub proof fn lemma_main_menu_actions_enabled()
    ensures
        forall|i: int, j: int|
            0 <= i < hamburger_model().len() && 0 <= j < hamburger_model()[i].len() ==> registered_model().contains(
                (#[trigger] hamburger_model()[i][j].1, true),
            ),
{
    assert forall|i: int, j: int|
        0 <= i < hamburger_model().len() && 0 <= j < hamburger_model()[i].len() implies registered_model().contains(
            (#[trigger] hamburger_model()[i][j].1, true),
        ) by {
        if i == 0 {
            if j == 0 {
                assert(registered_model()[12] == (hamburger_model()[0][0].1, true));
            } else if j == 1 {
                assert(registered_model()[13] == (hamburger_model()[0][1].1, true));
            } else if j == 2 {
                assert(registered_model()[0] == (hamburger_model()[0][2].1, true));
            } else if j == 3 {
                assert(registered_model()[1] == (hamburger_model()[0][3].1, true));
            } else if j == 4 {
                assert(registered_model()[2] == (hamburger_model()[0][4].1, true));
            }
        } else if i == 1 {
            if j == 0 {
                assert(registered_model()[3] == (hamburger_model()[1][0].1, true));
            } else if j == 1 {
                assert(registered_model()[4] == (hamburger_model()[1][1].1, true));
            }
        } else if i == 2 {
            if j == 0 {
                assert(registered_model()[5] == (hamburger_model()[2][0].1, true));
            } else if j == 1 {
                assert(registered_model()[6] == (hamburger_model()[2][1].1, true));
            }
        } else if i == 3 {
            if j == 0 {
                assert(registered_model()[11] == (hamburger_model()[3][0].1, true));
            } else if j == 1 {
                assert(registered_model()[8] == (hamburger_model()[3][1].1, true));
            } else if j == 2 {
                assert(registered_model()[9] == (hamburger_model()[3][2].1, true));
            } else if j == 3 {
                assert(registered_model()[10] == (hamburger_model()[3][3].1, true));
            }
        } else if i == 4 {
            if j == 0 {
                assert(registered_model()[15] == (hamburger_model()[4][0].1, true));
            } else if j == 1 {
                assert(registered_model()[16] == (hamburger_model()[4][1].1, true));
            }
        } else if i == 5 {
            if j == 0 {
                assert(registered_model()[17] == (hamburger_model()[5][0].1, true));
            }
        }
    }
}

/// Every entry of the terminal context menu activates a registered,
/// enabled action.
pub proof fn lemma_terminal_menu_actions_enabled()
    ensures
        forall|i: int, j: int|
            0 <= i < terminal_menu_model().len() && 0 <= j < terminal_menu_model()[i].len() ==> registered_model().contains(
                (#[trigger] terminal_menu_model()[i][j].1, true),
            ),
{
    assert forall|i: int, j: int|
        0 <= i < terminal_menu_model().len() && 0 <= j < terminal_menu_model()[i].len() implies registered_model().contains(
            (#[trigger] terminal_menu_model()[i][j].1, true),
        ) by {
        if i == 0 {
            if j == 0 {
                assert(registered_model()[5] == (terminal_menu_model()[0][0].1, true));
            } else if j == 1 {
                assert(registered_model()[6] == (terminal_menu_model()[0][1].1, true));
            }
        } else if i == 1 {
            if j == 0 {
                assert(registered_model()[12] == (terminal_menu_model()[1][0].1, true));
            } else if j == 1 {
                assert(registered_model()[13] == (terminal_menu_model()[1][1].1, true));
            } else if j == 2 {
                assert(registered_model()[3] == (terminal_menu_model()[1][2].1, true));
            }
        } else if i == 2 {
            if j == 0 {
                assert(registered_model()[2] == (terminal_menu_model()[2][0].1, true));
            }
        }
    }
}

/// Every entry of the sidebar context menu activates a registered,
/// enabled action.
pub proof fn lemma_sidebar_menu_actions_enabled()
    ensures
        forall|j: int|
            0 <= j < sidebar_menu_model().len() ==> registered_model().contains(
                ((#[trigger] sidebar_menu_model()[j]).1, true),
            ),
{
    assert forall|j: int| 0 <= j < sidebar_menu_model().len() implies registered_model().contains(
        ((#[trigger] sidebar_menu_model()[j]).1, true),
    ) by {
        if j == 0 {
            assert(registered_model()[14] == (sidebar_menu_model()[0].1, true));
        } else if j == 1 {
            assert(registered_model()[4] == (sidebar_menu_model()[1].1, true));
        } else if j == 2 {
            assert(registered_model()[12] == (sidebar_menu_model()[2].1, true));
        } else if j == 3 {
            assert(registered_model()[13] == (sidebar_menu_model()[3].1, true));
        }
    }
}

/// Every entry of the browser context menu activates a registered action.
pub proof fn lemma_browser_menu_actions_registered()
    ensures
        forall|j: int|
            0 <= j < browser_menu_model().len() ==> exists|e: bool| registered_model().contains(
                ((#[trigger] browser_menu_model()[j]).1, e),
            ),
{
    assert forall|j: int| 0 <= j < browser_menu_model().len() implies exists|e: bool| registered_model().contains(
        ((#[trigger] browser_menu_model()[j]).1, e),
    ) by {
        if j == 0 {
            assert(registered_model()[18] == (browser_menu_model()[0].1, false));
            assert(registered_model().contains((browser_menu_model()[0].1, false)));
        } else if j == 1 {
            assert(registered_model()[19] == (browser_menu_model()[1].1, false));
            assert(registered_model().contains((browser_menu_model()[1].1, false)));
        } else if j == 2 {
            assert(registered_model()[3] == (browser_menu_model()[2].1, true));
            assert(registered_model().contains((browser_menu_model()[2].1, true)));
        }
    }
}

/// Every keyboard accelerator belongs to a registered action.
pub proof fn lemma_accelerators_registered()
    ensures
        forall|j: int|
            0 <= j < accelerators_model().len() ==> exists|e: bool| registered_model().contains(
                ((#[trigger] accelerators_model()[j]).0, e),
            ),
{
    assert forall|j: int| 0 <= j < accelerators_model().len() implies exists|e: bool| registered_model().contains(
        ((#[trigger] accelerators_model()[j]).0, e),
    ) by {
        if j == 0 {
            assert(registered_model()[0] == (accelerators_model()[0].0, true));
            assert(registered_model().contains((accelerators_model()[0].0, true)));
        } else if j == 1 {
            assert(registered_model()[4] == (accelerators_model()[1].0, true));
            assert(registered_model().contains((accelerators_model()[1].0, true)));
        } else if j == 2 {
            assert(registered_model()[1] == (accelerators_model()[2].0, true));
            assert(registered_model().contains((accelerators_model()[2].0, true)));
        } else if j == 3 {
            assert(registered_model()[2] == (accelerators_model()[3].0, true));
            assert(registered_model().contains((accelerators_model()[3].0, true)));
        } else if j == 4 {
            assert(registered_model()[3] == (accelerators_model()[4].0, true));
            assert(registered_model().contains((accelerators_model()[4].0, true)));
        } else if j == 5 {
            assert(registered_model()[11] == (accelerators_model()[5].0, true));
            assert(registered_model().contains((accelerators_model()[5].0, true)));
        } else if j == 6 {
            assert(registered_model()[12] == (accelerators_model()[6].0, true));
            assert(registered_model().contains((accelerators_model()[6].0, true)));
        } else if j == 7 {
            assert(registered_model()[13] == (accelerators_model()[7].0, true));
            assert(registered_model().contains((accelerators_model()[7].0, true)));
        } else if j == 8 {
            assert(registered_model()[5] == (accelerators_model()[8].0, true));
            assert(registered_model().contains((accelerators_model()[8].0, true)));
        } else if j == 9 {
            assert(registered_model()[6] == (accelerators_model()[9].0, true));
            assert(registered_model().contains((accelerators_model()[9].0, true)));
        } else if j == 10 {
            assert(registered_model()[7] == (accelerators_model()[10].0, false));
            assert(registered_model().contains((accelerators_model()[10].0, false)));
        } else if j == 11 {
            assert(registered_model()[14] == (accelerators_model()[11].0, true));
            assert(registered_model().contains((accelerators_model()[11].0, true)));
        } else if j == 12 {
            assert(registered_model()[17] == (accelerators_model()[12].0, true));
            assert(registered_model().contains((accelerators_model()[12].0, true)));
        }
    }
}

/// The characters that stand for `c` inside a single-quoted shell word:
/// a quote closes the quoting, adds an escaped quote, and reopens it.
pub open spec fn quote_char(c: char) -> Seq<char> {
    if c == '\'' {
        seq!['\'', '\\', '\'', '\'']
    } else {
        seq![c]
    }
}

pub open spec fn quote_body(s: Seq<char>) -> Seq<char>
    decreases s.len(),
{
    if s.len() == 0 {
        seq![]
    } else {
        quote_char(s[0]) + quote_body(s.subrange(1, s.len() as int))
    }
}

/// `s` single-quoted for a POSIX shell.
pub open spec fn shell_quoted(s: Seq<char>) -> Seq<char> {
    seq!['\''] + quote_body(s) + seq!['\'']
}

/// The value a POSIX shell gives a word made of single-quoted parts,
/// backslash escapes and plain characters; `quoted` says whether a
/// single-quoted part is open.
pub open spec fn shell_value(t: Seq<char>, quoted: bool) -> Seq<char>
    decreases t.len(),
{
    if t.len() == 0 {
        seq![]
    } else if quoted {
        if t[0] == '\'' {
            shell_value(t.subrange(1, t.len() as int), false)
        } else {
            seq![t[0]] + shell_value(t.subrange(1, t.len() as int), true)
        }
    } else if t[0] == '\'' {
        shell_value(t.subrange(1, t.len() as int), true)
    } else if t[0] == '\\' && t.len() >= 2 {
        seq![t[1]] + shell_value(t.subrange(2, t.len() as int), false)
    } else {
        seq![t[0]] + shell_value(t.subrange(1, t.len() as int), false)
    }
}

proof fn lemma_quote_body_push(s: Seq<char>, c: char)
    ensures
        quote_body(s.push(c)) == quote_body(s) + quote_char(c),
    decreases s.len(),
{
    if s.len() == 0 {
        assert(s.push(c).subrange(1, 1) =~= Seq::<char>::empty());
        assert(quote_body(Seq::<char>::empty()) =~= Seq::<char>::empty());
        assert(s.push(c)[0] == c);
        assert(quote_body(s.push(c)) =~= quote_char(c));
    } else {
        let t = s.subrange(1, s.len() as int);
        lemma_quote_body_push(t, c);
        assert(s.push(c).subrange(1, (s.len() + 1) as int) =~= t.push(c));
        assert(quote_body(s.push(c)) =~= quote_char(s[0]) + quote_body(t.push(c)));
        assert(quote_body(s) + quote_char(c) =~= quote_char(s[0]) + (quote_body(t) + quote_char(c)));
    }
}

proof fn lemma_shell_value_body(s: Seq<char>, rest: Seq<char>)
    ensures
        shell_value(quote_body(s) + rest, true) == s + shell_value(rest, true),
    decreases s.len(),
{
    if s.len() == 0 {
        assert(quote_body(s) + rest =~= rest);
        assert(s + shell_value(rest, true) =~= shell_value(rest, true));
    } else {
        let c = s[0];
        let t = s.subrange(1, s.len() as int);
        lemma_shell_value_body(t, rest);
        let w = quote_body(s) + rest;
        let tail = quote_body(t) + rest;
        assert(w =~= quote_char(c) + tail);
        if c == '\'' {
            let w1 = w.subrange(1, w.len() as int);
            assert(w1 =~= seq!['\\', '\''] + (seq!['\''] + tail));
            let w3 = w1.subrange(2, w1.len() as int);
            assert(w3 =~= seq!['\''] + tail);
            assert(w3.subrange(1, w3.len() as int) =~= tail);
            assert(shell_value(w3, false) == shell_value(tail, true));
            assert(shell_value(w1, false) == seq!['\''] + shell_value(w3, false));
            assert(shell_value(w, true) == shell_value(w1, false));
        } else {
            assert(w.subrange(1, w.len() as int) =~= tail);
        }
        assert(shell_value(w, true) =~= s + shell_value(rest, true));
    }
}

/// A quoted string means the string itself to the shell: `bash -c` sees
/// exactly the characters that were quoted, whatever they are.
pub proof fn lemma_shell_quote_value(s: Seq<char>)
    ensures
        shell_value(shell_quoted(s), false) == s,
{
    let q = shell_quoted(s);
    assert(q.subrange(1, q.len() as int) =~= quote_body(s) + seq!['\'']);
    lemma_shell_value_body(s, seq!['\'']);
    assert(seq!['\''].subrange(1, 1) =~= Seq::<char>::empty());
    assert(shell_value(Seq::<char>::empty(), false) =~= Seq::<char>::empty());
    assert(shell_value(seq!['\''], true) =~= Seq::<char>::empty());
    assert(s + Seq::<char>::empty() =~= s);
}

/// `s` single-quoted for inclusion in a `bash -c` command line.
pub fn shell_quote(s: &str) -> (r: String)
    ensures
        r@ == shell_quoted(s@),
{
    let v = chars_of(s);
    let mut out: Vec<char> = Vec::new();
    out.push('\'');
    let ghost start = out@;
    let mut i: usize = 0;
    assert(v@.subrange(0, 0) =~= Seq::<char>::empty());
    while i < v.len()
        invariant
            i <= v.len(),
            out@ == start + quote_body(v@.subrange(0, i as int)),
        decreases v.len() - i,
    {
        let c = v[i];
        if c == '\'' {
            out.push('\'');
            out.push('\\');
            out.push('\'');
            out.push('\'');
        } else {
            out.push(c);
        }
        proof {
            lemma_quote_body_push(v@.subrange(0, i as int), c);
            assert(v@.subrange(0, i + 1) =~= v@.subrange(0, i as int).push(c));
        }
        assert(out@ =~= start + quote_body(v@.subrange(0, i + 1)));
        i = i + 1;
    }
    assert(v@.subrange(0, v.len() as int) =~= v@);
    out.push('\'');
    assert(out@ =~= shell_quoted(s@));
    string_from_chars(&out)
}

/// The command that the terminal runs to install Chromium: the quoted
/// script, then a pause so that its output stays visible.
pub open spec fn install_payload_model(script: Seq<char>) -> Seq<char> {
    shell_quoted(script) + " ; echo ; read -p 'Press Enter to close…' _"@
}

pub fn install_payload(script: &str) -> (r: String)
    ensures
        r@ == install_payload_model(script@),
{
    let q = shell_quote(script);
    let mut out = chars_of(q.as_str());
    push_str(&mut out, " ; echo ; read -p 'Press Enter to close…' _");
    string_from_chars(&out)
}

/// The terminal emulators tried, in order: a non-empty `$TERMINAL`, then
/// the known ones.
pub open spec fn terminal_candidates_model(env_term: Option<Seq<char>>) -> Seq<Seq<char>> {
    let known = seq![
        "kitty"@,
        "alacritty"@,
        "foot"@,
        "wezterm"@,
        "gnome-terminal"@,
        "konsole"@,
        "xterm"@,
    ];
    match env_term {
        Some(t) => if t.len() > 0 {
            seq![t] + known
        } else {
            known
        },
        None => known,
    }
}

pub fn terminal_candidates(env_term: Option<&str>) -> (r: Vec<String>)
    ensures
        crate::text::strings_view(r@) == terminal_candidates_model(
            match env_term {
                Some(t) => Some(t@),
                None => None,
            },
        ),
{
    let mut v: Vec<String> = Vec::new();
    if let Some(t) = env_term {
        if !crate::text::str_is_empty(t) {
            v.push(string_of(t));
        }
    }
    let ghost head = crate::text::strings_view(v@);
    v.push(string_of("kitty"));
    v.push(string_of("alacritty"));
    v.push(string_of("foot"));
    v.push(string_of("wezterm"));
    v.push(string_of("gnome-terminal"));
    v.push(string_of("konsole"));
    v.push(string_of("xterm"));
    assert(crate::text::strings_view(v@) =~= head + seq![
        "kitty"@,
        "alacritty"@,
        "foot"@,
        "wezterm"@,
        "gnome-terminal"@,
        "konsole"@,
        "xterm"@,
    ]);
    v
}

/// The arguments that make a terminal run `payload` with `bash -lc`:
/// `start --` for wezterm, `--` for gnome-terminal, `-e` for the others.
pub open spec fn terminal_args_model(name: Seq<char>, payload: Seq<char>) -> Seq<Seq<char>> {
    if name == "wezterm"@ {
        seq!["start"@, "--"@, "bash"@, "-lc"@, payload]
    } else if name == "gnome-terminal"@ {
        seq!["--"@, "bash"@, "-lc"@, payload]
    } else {
        seq!["-e"@, "bash"@, "-lc"@, payload]
    }
}

/// The program to start for a terminal candidate (the candidate without
/// surrounding whitespace) and its arguments.
pub fn terminal_command(candidate: &str, payload: &str) -> (r: (String, Vec<String>))
    ensures
        r.0@ == trim(candidate@),
        crate::text::strings_view(r.1@) == terminal_args_model(trim(candidate@), payload@),
{
    let name = trim_str(candidate);
    let mut args: Vec<String> = Vec::new();
    if name == string_of("wezterm") {
        args.push(string_of("start"));
    }
    if name == string_of("wezterm") || name == string_of("gnome-terminal") {
        args.push(string_of("--"));
    } else {
        args.push(string_of("-e"));
    }
    args.push(string_of("bash"));
    args.push(string_of("-lc"));
    args.push(string_of(payload));
    proof {
        let w = "wezterm"@;
        let g = "gnome-terminal"@;
        if name@ == w {
            assert(crate::text::strings_view(args@) =~= seq!["start"@, "--"@, "bash"@, "-lc"@, payload@]);
        } else if name@ == g {
            assert(crate::text::strings_view(args@) =~= seq!["--"@, "bash"@, "-lc"@, payload@]);
        } else {
            assert(crate::text::strings_view(args@) =~= seq!["-e"@, "bash"@, "-lc"@, payload@]);
        }
    }
    (name, args)
}

/// Where the Chromium install script is looked for, in order: beside the
/// executable's directory, then the system share directory.
pub open spec fn install_script_model(exe_dir: Option<Seq<char>>) -> Seq<Seq<char>> {
    match exe_dir {
        Some(d) => seq![
            join(d, "../scripts/install-chromium.sh"@),
            "/usr/share/cmux/scripts/install-chromium.sh"@,
        ],
        None => seq!["/usr/share/cmux/scripts/install-chromium.sh"@],
    }
}

pub fn install_script_candidates(exe_dir: Option<&str>) -> (r: Vec<String>)
    ensures
        crate::text::strings_view(r@) == install_script_model(
            match exe_dir {
                Some(d) => Some(d@),
                None => None,
            },
        ),
{
    let mut v: Vec<String> = Vec::new();
    if let Some(d) = exe_dir {
        v.push(crate::paths::join_path(d, "../scripts/install-chromium.sh"));
    }
    let ghost head = crate::text::strings_view(v@);
    v.push(string_of("/usr/share/cmux/scripts/install-chromium.sh"));
    assert(crate::text::strings_view(v@) =~= head.push("/usr/share/cmux/scripts/install-chromium.sh"@));
    proof {
        if exe_dir is None {
            assert(head =~= Seq::<Seq<char>>::empty());
        }
    }
    assert(crate::text::strings_view(v@) =~= install_script_model(
        match exe_dir {
            Some(d) => Some(d@),
            None => None,
        },
    ));
    v
}

/// The editor that opens the configuration: `$EDITOR` when it is set,
/// `xdg-open` otherwise.
pub fn preferences_editor(editor_env: Option<&str>) -> (r: String)
    ensures
        r@ == match editor_env {
            Some(e) => e@,
            None => "xdg-open"@,
        },
{
    match editor_env {
        Some(e) => string_of(e),
        None => string_of("xdg-open"),
    }
}

/// The contents written to a configuration file that does not exist yet.
pub fn default_config_text() -> (r: String)
    ensures
        r@ == "# cmux configuration\n# See documentation for options\n"@,
{
    string_of("# cmux configuration\n# See documentation for options\n")
}

/// An accelerator in the notation of the keyboard-shortcuts window:
/// `<Ctrl>x` is shown as `Ctrl+X`, `<Ctrl><Shift>x` as `Ctrl+Shift+X`.
pub open spec fn accel_display(a: Seq<char>) -> Seq<char> {
    if a.len() == 14 && a.subrange(0, 13) == "<Ctrl>"@ + "<Shift>"@ {
        "Ctrl+Shift+"@.push(crate::keys::ascii_upper(a[13]))
    } else if a.len() == 7 && a.subrange(0, 6) == "<Ctrl>"@ {
        "Ctrl+"@.push(crate::keys::ascii_upper(a[6]))
    } else {
        a
    }
}

/// The actions that the keyboard-shortcuts window lists, each with the
/// title it is listed under.
pub open spec fn shortcut_window_titles() -> Seq<Pair> {
    seq![
        ("win.new-workspace"@, "New Workspace"@),
        ("win.close-workspace"@, "Close Workspace"@),
        ("win.rename-workspace"@, "Rename Workspace"@),
        ("win.split-right"@, "Split Right (new pane)"@),
        ("win.split-down"@, "Split Down (new pane)"@),
        ("win.close-pane"@, "Close Pane"@),
        ("win.copy"@, "Copy"@),
        ("win.paste"@, "Paste"@),
        ("win.toggle-sidebar"@, "Toggle Sidebar"@),
        ("win.browser-open"@, "Open Browser"@),
        ("win.new-ssh-workspace"@, "New SSH Workspace"@),
        ("app.quit"@, "Quit"@),
    ]
}

/// Whether the accelerator registered for `action` is the key that the
/// keyboard-shortcuts window lists under `title`.
pub open spec fn listed_with(action: Seq<char>, title: Seq<char>) -> bool {
    exists|a: int, s: int, j: int|
        #![trigger accelerators_model()[a], shortcut_sections_model()[s].1[j]]
        0 <= a < accelerators_model().len() && 0 <= s < shortcut_sections_model().len() && 0 <= j
            < shortcut_sections_model()[s].1.len() && accelerators_model()[a].0 == action
            && shortcut_sections_model()[s].1[j].1 == title && accel_display(
            accelerators_model()[a].1,
        ) == shortcut_sections_model()[s].1[j].0
}

proof fn lemma_display_ctrl(c: char)
    ensures
        accel_display("<Ctrl>"@.push(c)) == "Ctrl+"@.push(crate::keys::ascii_upper(c)),
{
    reveal_strlit("<Ctrl>");
    reveal_strlit("<Shift>");
    let a = "<Ctrl>"@.push(c);
    assert(a.subrange(0, 6) =~= "<Ctrl>"@);
}

proof fn lemma_display_ctrl_shift(c: char)
    ensures
        accel_display(("<Ctrl>"@ + "<Shift>"@).push(c)) == "Ctrl+Shift+"@.push(crate::keys::ascii_upper(c)),
{
    reveal_strlit("<Ctrl>");
    reveal_strlit("<Shift>");
    let a = ("<Ctrl>"@ + "<Shift>"@).push(c);
    assert(a.subrange(0, 13) =~= "<Ctrl>"@ + "<Shift>"@);
}

/// Every accelerator agrees with the keyboard-shortcuts window: for each
/// action the window lists, the accelerator the application registers for
/// that action is the key the window shows for it (split-right is
/// `<Ctrl>d`, shown as Ctrl+D; split-down is `<Ctrl><Shift>d`, shown as
/// Ctrl+Shift+D; and so on).
pub proof fn lemma_accelerators_match_window()
    ensures
        forall|i: int|
            0 <= i < shortcut_window_titles().len() ==> listed_with(
                #[trigger] shortcut_window_titles()[i].0,
                shortcut_window_titles()[i].1,
            ),
{
    let ws = shortcut_sections_model();
    let ac = accelerators_model();
    let tt = shortcut_window_titles();
    reveal_strlit("Ctrl+");
    reveal_strlit("Ctrl+Shift+");
    reveal_strlit("<Ctrl>");
    reveal_strlit("<Shift>");
    {
        reveal_strlit("<Ctrl>n");
        reveal_strlit("Ctrl+N");
        assert("<Ctrl>n"@ =~= "<Ctrl>"@.push('n'));
        assert("Ctrl+N"@ =~= "Ctrl+"@.push('N'));
        lemma_display_ctrl('n');
        assert(crate::keys::ascii_upper('n') == 'N');
        assert(ws[0].1[0] == ("Ctrl+N"@, "New Workspace"@));
        assert(ac[0] == ("win.new-workspace"@, "<Ctrl>n"@));
        assert(tt[0] == ("win.new-workspace"@, "New Workspace"@));
        assert(listed_with(tt[0].0, tt[0].1));
    }
    {
        reveal_strlit("<Ctrl><Shift>w");
        reveal_strlit("Ctrl+Shift+W");
        assert("<Ctrl><Shift>w"@ =~= ("<Ctrl>"@ + "<Shift>"@).push('w'));
        assert("Ctrl+Shift+W"@ =~= "Ctrl+Shift+"@.push('W'));
        lemma_display_ctrl_shift('w');
        assert(crate::keys::ascii_upper('w') == 'W');
        assert(ws[0].1[1] == ("Ctrl+Shift+W"@, "Close Workspace"@));
        assert(ac[1] == ("win.close-workspace"@, "<Ctrl><Shift>w"@));
        assert(tt[1] == ("win.close-workspace"@, "Close Workspace"@));
        assert(listed_with(tt[1].0, tt[1].1));
    }
    {
        reveal_strlit("<Ctrl><Shift>r");
        reveal_strlit("Ctrl+Shift+R");
        assert("<Ctrl><Shift>r"@ =~= ("<Ctrl>"@ + "<Shift>"@).push('r'));
        assert("Ctrl+Shift+R"@ =~= "Ctrl+Shift+"@.push('R'));
        lemma_display_ctrl_shift('r');
        assert(crate::keys::ascii_upper('r') == 'R');
        assert(ws[0].1[4] == ("Ctrl+Shift+R"@, "Rename Workspace"@));
        assert(ac[11] == ("win.rename-workspace"@, "<Ctrl><Shift>r"@));
        assert(tt[2] == ("win.rename-workspace"@, "Rename Workspace"@));
        assert(listed_with(tt[2].0, tt[2].1));
    }
    {
        reveal_strlit("<Ctrl>d");
        reveal_strlit("Ctrl+D");
        assert("<Ctrl>d"@ =~= "<Ctrl>"@.push('d'));
        assert("Ctrl+D"@ =~= "Ctrl+"@.push('D'));
        lemma_display_ctrl('d');
        assert(crate::keys::ascii_upper('d') == 'D');
        assert(ws[1].1[0] == ("Ctrl+D"@, "Split Right (new pane)"@));
        assert(ac[6] == ("win.split-right"@, "<Ctrl>d"@));
        assert(tt[3] == ("win.split-right"@, "Split Right (new pane)"@));
        assert(listed_with(tt[3].0, tt[3].1));
    }
    {
        reveal_strlit("<Ctrl><Shift>d");
        reveal_strlit("Ctrl+Shift+D");
        assert("<Ctrl><Shift>d"@ =~= ("<Ctrl>"@ + "<Shift>"@).push('d'));
        assert("Ctrl+Shift+D"@ =~= "Ctrl+Shift+"@.push('D'));
        lemma_display_ctrl_shift('d');
        assert(crate::keys::ascii_upper('d') == 'D');
        assert(ws[1].1[1] == ("Ctrl+Shift+D"@, "Split Down (new pane)"@));
        assert(ac[7] == ("win.split-down"@, "<Ctrl><Shift>d"@));
        assert(tt[4] == ("win.split-down"@, "Split Down (new pane)"@));
        assert(listed_with(tt[4].0, tt[4].1));
    }
    {
        reveal_strlit("<Ctrl><Shift>x");
        reveal_strlit("Ctrl+Shift+X");
        assert("<Ctrl><Shift>x"@ =~= ("<Ctrl>"@ + "<Shift>"@).push('x'));
        assert("Ctrl+Shift+X"@ =~= "Ctrl+Shift+"@.push('X'));
        lemma_display_ctrl_shift('x');
        assert(crate::keys::ascii_upper('x') == 'X');
        assert(ws[1].1[2] == ("Ctrl+Shift+X"@, "Close Pane"@));
        assert(ac[4] == ("win.close-pane"@, "<Ctrl><Shift>x"@));
        assert(tt[5] == ("win.close-pane"@, "Close Pane"@));
        assert(listed_with(tt[5].0, tt[5].1));
    }
    {
        reveal_strlit("<Ctrl><Shift>c");
        reveal_strlit("Ctrl+Shift+C");
        assert("<Ctrl><Shift>c"@ =~= ("<Ctrl>"@ + "<Shift>"@).push('c'));
        assert("Ctrl+Shift+C"@ =~= "Ctrl+Shift+"@.push('C'));
        lemma_display_ctrl_shift('c');
        assert(crate::keys::ascii_upper('c') == 'C');
        assert(ws[2].1[0] == ("Ctrl+Shift+C"@, "Copy"@));
        assert(ac[8] == ("win.copy"@, "<Ctrl><Shift>c"@));
        assert(tt[6] == ("win.copy"@, "Copy"@));
        assert(listed_with(tt[6].0, tt[6].1));
    }
    {
        reveal_strlit("<Ctrl><Shift>v");
        reveal_strlit("Ctrl+Shift+V");
        assert("<Ctrl><Shift>v"@ =~= ("<Ctrl>"@ + "<Shift>"@).push('v'));
        assert("Ctrl+Shift+V"@ =~= "Ctrl+Shift+"@.push('V'));
        lemma_display_ctrl_shift('v');
        assert(crate::keys::ascii_upper('v') == 'V');
        assert(ws[2].1[1] == ("Ctrl+Shift+V"@, "Paste"@));
        assert(ac[9] == ("win.paste"@, "<Ctrl><Shift>v"@));
        assert(tt[7] == ("win.paste"@, "Paste"@));
        assert(listed_with(tt[7].0, tt[7].1));
    }
    {
        reveal_strlit("<Ctrl>b");
        reveal_strlit("Ctrl+B");
        assert("<Ctrl>b"@ =~= "<Ctrl>"@.push('b'));
        assert("Ctrl+B"@ =~= "Ctrl+"@.push('B'));
        lemma_display_ctrl('b');
        assert(crate::keys::ascii_upper('b') == 'B');
        assert(ws[3].1[0] == ("Ctrl+B"@, "Toggle Sidebar"@));
        assert(ac[5] == ("win.toggle-sidebar"@, "<Ctrl>b"@));
        assert(tt[8] == ("win.toggle-sidebar"@, "Toggle Sidebar"@));
        assert(listed_with(tt[8].0, tt[8].1));
    }
    {
        reveal_strlit("<Ctrl><Shift>b");
        reveal_strlit("Ctrl+Shift+B");
        assert("<Ctrl><Shift>b"@ =~= ("<Ctrl>"@ + "<Shift>"@).push('b'));
        assert("Ctrl+Shift+B"@ =~= "Ctrl+Shift+"@.push('B'));
        lemma_display_ctrl_shift('b');
        assert(crate::keys::ascii_upper('b') == 'B');
        assert(ws[3].1[1] == ("Ctrl+Shift+B"@, "Open Browser"@));
        assert(ac[3] == ("win.browser-open"@, "<Ctrl><Shift>b"@));
        assert(tt[9] == ("win.browser-open"@, "Open Browser"@));
        assert(listed_with(tt[9].0, tt[9].1));
    }
    {
        reveal_strlit("<Ctrl><Shift>s");
        reveal_strlit("Ctrl+Shift+S");
        assert("<Ctrl><Shift>s"@ =~= ("<Ctrl>"@ + "<Shift>"@).push('s'));
        assert("Ctrl+Shift+S"@ =~= "Ctrl+Shift+"@.push('S'));
        lemma_display_ctrl_shift('s');
        assert(crate::keys::ascii_upper('s') == 'S');
        assert(ws[3].1[2] == ("Ctrl+Shift+S"@, "New SSH Workspace"@));
        assert(ac[2] == ("win.new-ssh-workspace"@, "<Ctrl><Shift>s"@));
        assert(tt[10] == ("win.new-ssh-workspace"@, "New SSH Workspace"@));
        assert(listed_with(tt[10].0, tt[10].1));
    }
    {
        reveal_strlit("<Ctrl>q");
        reveal_strlit("Ctrl+Q");
        assert("<Ctrl>q"@ =~= "<Ctrl>"@.push('q'));
        assert("Ctrl+Q"@ =~= "Ctrl+"@.push('Q'));
        lemma_display_ctrl('q');
        assert(crate::keys::ascii_upper('q') == 'Q');
        assert(ws[4].1[0] == ("Ctrl+Q"@, "Quit"@));
        assert(ac[12] == ("app.quit"@, "<Ctrl>q"@));
        assert(tt[11] == ("app.quit"@, "Quit"@));
        assert(listed_with(tt[11].0, tt[11].1));
    }
    assert forall|i: int|
        0 <= i < tt.len() implies listed_with(#[trigger] tt[i].0, tt[i].1) by {
        assert(0 <= i < 12);
    }
}

} // verus!
