//! Keyboard shortcut dispatch and the sidebar's workspace decisions:
//! closing, renaming and wiring rows.

use vstd::prelude::*;
use crate::text::{chars_of, str_is_empty, string_from_chars, trim, trim_str};

verus! {

/// The actions that keyboard shortcuts are bound to.
#[derive(Clone, Copy, Debug, PartialEq, Eq, Structural)]
pub enum ShortcutAction {
    NewWorkspace,
    CloseWorkspace,
    NextWorkspace,
    PrevWorkspace,
    RenameWorkspace,
    ToggleSidebar,
    SplitRight,
    SplitDown,
    ClosePane,
    NewSshWorkspace,
    FocusLeft,
    FocusRight,
    FocusUp,
    FocusDown,
    Workspace1,
    Workspace2,
    Workspace3,
    Workspace4,
    Workspace5,
    Workspace6,
    Workspace7,
    Workspace8,
    Workspace9,
    BrowserOpen,
    BrowserClose,
}

/// A direction to move the pane focus in.
#[derive(Clone, Copy, Debug, PartialEq, Eq, Structural)]
pub enum FocusDirection {
    Left,
    Right,
    Up,
    Down,
}

/// What the window does for a shortcut.
#[derive(Clone, Copy, Debug, PartialEq, Eq, Structural)]
pub enum UiCommand {
    NewWorkspace,
    CloseWorkspace,
    NextWorkspace,
    PrevWorkspace,
    RenameWorkspace,
    ToggleSidebar,
    /// Split the active pane: down when `vertical`, right otherwise.
    Split { vertical: bool },
    ClosePane,
    NewSshWorkspace,
    Focus(FocusDirection),
    /// Switch to the workspace at this position (from 0).
    SwitchToWorkspace(usize),
    BrowserOpen,
    BrowserClose,
}

/// The command for a shortcut, or `None` when the key is not a shortcut
/// and passes through to the terminal.
pub open spec fn command_model(a: Option<ShortcutAction>) -> Option<UiCommand> {
    match a {
        None => None,
        Some(a) => Some(
            match a {
                ShortcutAction::NewWorkspace => UiCommand::NewWorkspace,
                ShortcutAction::CloseWorkspace => UiCommand::CloseWorkspace,
                ShortcutAction::NextWorkspace => UiCommand::NextWorkspace,
                ShortcutAction::PrevWorkspace => UiCommand::PrevWorkspace,
                ShortcutAction::RenameWorkspace => UiCommand::RenameWorkspace,
                ShortcutAction::ToggleSidebar => UiCommand::ToggleSidebar,
                ShortcutAction::SplitRight => UiCommand::Split { vertical: false },
                ShortcutAction::SplitDown => UiCommand::Split { vertical: true },
                ShortcutAction::ClosePane => UiCommand::ClosePane,
                ShortcutAction::NewSshWorkspace => UiCommand::NewSshWorkspace,
                ShortcutAction::FocusLeft => UiCommand::Focus(FocusDirection::Left),
                ShortcutAction::FocusRight => UiCommand::Focus(FocusDirection::Right),
                ShortcutAction::FocusUp => UiCommand::Focus(FocusDirection::Up),
                ShortcutAction::FocusDown => UiCommand::Focus(FocusDirection::Down),
                ShortcutAction::Workspace1 => UiCommand::SwitchToWorkspace(0),
                ShortcutAction::Workspace2 => UiCommand::SwitchToWorkspace(1),
                ShortcutAction::Workspace3 => UiCommand::SwitchToWorkspace(2),
                ShortcutAction::Workspace4 => UiCommand::SwitchToWorkspace(3),
                ShortcutAction::Workspace5 => UiCommand::SwitchToWorkspace(4),
                ShortcutAction::Workspace6 => UiCommand::SwitchToWorkspace(5),
                ShortcutAction::Workspace7 => UiCommand::SwitchToWorkspace(6),
                ShortcutAction::Workspace8 => UiCommand::SwitchToWorkspace(7),
                ShortcutAction::Workspace9 => UiCommand::SwitchToWorkspace(8),
                ShortcutAction::BrowserOpen => UiCommand::BrowserOpen,
                ShortcutAction::BrowserClose => UiCommand::BrowserClose,
            },
        ),
    }
}

/// The command for a looked-up shortcut; a key with a command is consumed,
/// one without passes through.
pub fn shortcut_command(action: Option<ShortcutAction>) -> (r: Option<UiCommand>)
    ensures
        r == command_model(action),
{
    match action {
        None => None,
        Some(a) => Some(
            match a {
                ShortcutAction::NewWorkspace => UiCommand::NewWorkspace,
                ShortcutAction::CloseWorkspace => UiCommand::CloseWorkspace,
                ShortcutAction::NextWorkspace => UiCommand::NextWorkspace,
                ShortcutAction::PrevWorkspace => UiCommand::PrevWorkspace,
                ShortcutAction::RenameWorkspace => UiCommand::RenameWorkspace,
                ShortcutAction::ToggleSidebar => UiCommand::ToggleSidebar,
                ShortcutAction::SplitRight => UiCommand::Split { vertical: false },
                ShortcutAction::SplitDown => UiCommand::Split { vertical: true },
                ShortcutAction::ClosePane => UiCommand::ClosePane,
                ShortcutAction::NewSshWorkspace => UiCommand::NewSshWorkspace,
                ShortcutAction::FocusLeft => UiCommand::Focus(FocusDirection::Left),
                ShortcutAction::FocusRight => UiCommand::Focus(FocusDirection::Right),
                ShortcutAction::FocusUp => UiCommand::Focus(FocusDirection::Up),
                ShortcutAction::FocusDown => UiCommand::Focus(FocusDirection::Down),
                ShortcutAction::Workspace1 => UiCommand::SwitchToWorkspace(0),
                ShortcutAction::Workspace2 => UiCommand::SwitchToWorkspace(1),
                ShortcutAction::Workspace3 => UiCommand::SwitchToWorkspace(2),
                ShortcutAction::Workspace4 => UiCommand::SwitchToWorkspace(3),
                ShortcutAction::Workspace5 => UiCommand::SwitchToWorkspace(4),
                ShortcutAction::Workspace6 => UiCommand::SwitchToWorkspace(5),
                ShortcutAction::Workspace7 => UiCommand::SwitchToWorkspace(6),
                ShortcutAction::Workspace8 => UiCommand::SwitchToWorkspace(7),
                ShortcutAction::Workspace9 => UiCommand::SwitchToWorkspace(8),
                ShortcutAction::BrowserOpen => UiCommand::BrowserOpen,
                ShortcutAction::BrowserClose => UiCommand::BrowserClose,
            },
        ),
    }
}

/// Whether a workspace may be closed: never the last one.
pub fn can_close_workspace(workspace_count: usize) -> (b: bool)
    ensures
        b == (workspace_count > 1),
{
    workspace_count > 1
}

/// Whether the answer to the close-workspace dialog closes the workspace:
/// only the second button, "Close Workspace", does.
pub fn close_confirmed(choice: Option<i32>) -> (b: bool)
    ensures
        b == (choice == Some(1i32)),
{
    match choice {
        Some(c) => c == 1,
        None => false,
    }
}

/// The row that was added last to a list of `n` rows.
pub fn latest_row_index(n: u32) -> (r: Option<u32>)
    ensures
        r == (if n == 0 {
            None
        } else {
            Some((n - 1) as u32)
        }),
{
    if n == 0 {
        None
    } else {
        Some(n - 1)
    }
}

/// Committing an inline rename with the entry text `text`: the workspace
/// takes the trimmed text as its name unless it is empty, and the row
/// shows the trimmed text, or the raw text when the trimmed one is empty.
pub open spec fn rename_model(text: Seq<char>) -> (Option<Seq<char>>, Seq<char>) {
    if trim(text).len() > 0 {
        (Some(trim(text)), trim(text))
    } else {
        (None, text)
    }
}

pub fn rename_outcome(text: &str) -> (r: (Option<String>, String))
    ensures
        (match r.0 {
            Some(n) => Some(n@),
            None => None,
        }, r.1@) == rename_model(text@),
{
    let t = trim_str(text);
    if str_is_empty(t.as_str()) {
        let v = chars_of(text);
        (None, string_from_chars(&v))
    } else {
        let shown = t.clone();
        (Some(t), shown)
    }
}

/// Every shortcut is dispatched to the window command of the same
/// meaning: each workspace, pane, focus and browser shortcut to its
/// namesake (NextWorkspace to NextWorkspace, PrevWorkspace to
/// PrevWorkspace, SplitRight to a split that is not vertical, FocusUp to
/// focus upward, ...), WorkspaceN to the workspace at position N - 1; a
/// key that is no shortcut yields no command.
pub proof fn lemma_shortcut_meaning()
    ensures
        command_model(None) is None,
        command_model(Some(ShortcutAction::NewWorkspace)) == Some(UiCommand::NewWorkspace),
        command_model(Some(ShortcutAction::CloseWorkspace)) == Some(UiCommand::CloseWorkspace),
        command_model(Some(ShortcutAction::NextWorkspace)) == Some(UiCommand::NextWorkspace),
        command_model(Some(ShortcutAction::PrevWorkspace)) == Some(UiCommand::PrevWorkspace),
        command_model(Some(ShortcutAction::RenameWorkspace)) == Some(UiCommand::RenameWorkspace),
        command_model(Some(ShortcutAction::ToggleSidebar)) == Some(UiCommand::ToggleSidebar),
        command_model(Some(ShortcutAction::SplitRight)) == Some(UiCommand::Split { vertical: false }),
        command_model(Some(ShortcutAction::SplitDown)) == Some(UiCommand::Split { vertical: true }),
        command_model(Some(ShortcutAction::ClosePane)) == Some(UiCommand::ClosePane),
        command_model(Some(ShortcutAction::NewSshWorkspace)) == Some(UiCommand::NewSshWorkspace),
        command_model(Some(ShortcutAction::FocusLeft)) == Some(UiCommand::Focus(FocusDirection::Left)),
        command_model(Some(ShortcutAction::FocusRight)) == Some(UiCommand::Focus(FocusDirection::Right)),
        command_model(Some(ShortcutAction::FocusUp)) == Some(UiCommand::Focus(FocusDirection::Up)),
        command_model(Some(ShortcutAction::FocusDown)) == Some(UiCommand::Focus(FocusDirection::Down)),
        forall|n: int|
            1 <= n <= 9 ==> #[trigger] command_model(Some(workspace_shortcut(n))) == Some(
                UiCommand::SwitchToWorkspace((n - 1) as usize),
            ),
        command_model(Some(ShortcutAction::BrowserOpen)) == Some(UiCommand::BrowserOpen),
        command_model(Some(ShortcutAction::BrowserClose)) == Some(UiCommand::BrowserClose),
{
}

/// The shortcut that switches to workspace `n` (1..9).
pub open spec fn workspace_shortcut(n: int) -> ShortcutAction {
    if n == 1 {
        ShortcutAction::Workspace1
    } else if n == 2 {
        ShortcutAction::Workspace2
    } else if n == 3 {
        ShortcutAction::Workspace3
    } else if n == 4 {
        ShortcutAction::Workspace4
    } else if n == 5 {
        ShortcutAction::Workspace5
    } else if n == 6 {
        ShortcutAction::Workspace6
    } else if n == 7 {
        ShortcutAction::Workspace7
    } else if n == 8 {
        ShortcutAction::Workspace8
    } else {
        ShortcutAction::Workspace9
    }
}

} // verus!
