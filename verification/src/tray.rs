use vstd::prelude::*;

use crate::text::same_text;

verus! {

/// What choosing a tray menu entry does.
#[derive(Clone, Copy, Debug, PartialEq, Eq, Structural)]
pub enum TrayAction {
    /// Quit the application.
    Quit,
    /// Show and focus the main window.
    ShowWindow,
    /// Nothing.
    Ignore,
}

/// The action of the tray menu entry with id `id`: `quit` or `show`.
pub fn tray_menu_action(id: &str) -> (a: TrayAction)
    ensures
        id@ == "quit"@ ==> a == TrayAction::Quit,
        id@ == "show"@ ==> a == TrayAction::ShowWindow,
        id@ != "quit"@ && id@ != "show"@ ==> a == TrayAction::Ignore,
{
    proof {
        reveal_strlit("quit");
        reveal_strlit("show");
        assert("quit"@[0] != "show"@[0]);
    }
    if same_text(id, "quit") {
        TrayAction::Quit
    } else if same_text(id, "show") {
        TrayAction::ShowWindow
    } else {
        TrayAction::Ignore
    }
}

/// A click on the tray icon shows the main window when it is a release of the left button.
pub fn tray_click_shows_window(left_button: bool, released: bool) -> (b: bool)
    ensures
        b == (left_button && released),
{
    left_button && released
}

} // verus!
