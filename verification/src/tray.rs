//! What the tray icon and its menu do.
use vstd::prelude::*;
use crate::text::str_equal;

verus! {

/// What a tray event asks of the application.
#[derive(PartialEq, Eq, Structural, Clone, Copy, Debug)]
pub enum TrayAction {
    ShowWindow,
    RequestRefresh,
    Quit,
    Ignore,
}

pub open spec fn menu_action_spec(id: Seq<char>) -> TrayAction {
    if id == "open"@ {
        TrayAction::ShowWindow
    } else if id == "refresh"@ {
        TrayAction::RequestRefresh
    } else if id == "quit"@ {
        TrayAction::Quit
    } else {
        TrayAction::Ignore
    }
}

/// The action of a menu item, by its id: "open" shows the window, "refresh"
/// asks the window to refresh, "quit" quits.
pub fn tray_menu_action(id: &str) -> (res: TrayAction)
    ensures
        res == menu_action_spec(id@),
        id@ == "open"@ ==> res == TrayAction::ShowWindow,
        id@ == "refresh"@ ==> res == TrayAction::RequestRefresh,
        id@ == "quit"@ ==> res == TrayAction::Quit,
        id@ != "open"@ && id@ != "refresh"@ && id@ != "quit"@ ==> res == TrayAction::Ignore,
{
    proof {
        reveal_strlit("open");
        reveal_strlit("refresh");
        reveal_strlit("quit");
        assert("refresh"@.len() != "open"@.len());
        assert("quit"@[0] != "open"@[0] && "quit"@[0] != "refresh"@[0]);
    }
    if str_equal(id, "open") {
        TrayAction::ShowWindow
    } else if str_equal(id, "refresh") {
        TrayAction::RequestRefresh
    } else if str_equal(id, "quit") {
        TrayAction::Quit
    } else {
        TrayAction::Ignore
    }
}

/// The action of a click on the tray icon: releasing the left button shows
/// the window; anything else is ignored.
pub fn tray_click_action(is_click: bool, left_button: bool, released: bool) -> (res: TrayAction)
    ensures
        res == (if is_click && left_button && released {
            TrayAction::ShowWindow
        } else {
            TrayAction::Ignore
        }),
{
    if is_click && left_button && released {
        TrayAction::ShowWindow
    } else {
        TrayAction::Ignore
    }
}

} // verus!
