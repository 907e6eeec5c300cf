//! The window menus: how the application menu's entries are renamed, where
//! the "download adb" entry goes, and what a tray menu entry does.

use vstd::prelude::*;
use crate::text::{cat, chars_of, starts_with, starts_with_exec, str_is};

verus! {

broadcast use vstd::string::group_string_axioms;

/// The name the application menu shows.
pub open spec fn app_name() -> Seq<char> {
    "ADB Tools"@
}

/// The new text of an entry of the application menu: "About …", "Hide …"
/// (but not "Hide Others") and "Quit …" are renamed after the application;
/// every other entry keeps its text.
pub open spec fn app_menu_entry(t: Seq<char>) -> Option<Seq<char>> {
    if starts_with(t, "About "@) {
        Some("About "@ + app_name())
    } else if starts_with(t, "Hide "@) && !starts_with(t, "Hide Others"@) {
        Some("Hide "@ + app_name())
    } else if starts_with(t, "Quit "@) {
        Some("Quit "@ + app_name())
    } else {
        None
    }
}

/// The text an entry of the application menu is renamed to, if any.
pub fn app_menu_text(t: &str) -> (res: Option<String>)
    ensures
        res.deep_view() == app_menu_entry(t@),
{
    proof {
        reveal_strlit("About ");
        reveal_strlit("Hide ");
        reveal_strlit("Hide Others");
        reveal_strlit("Quit ");
        reveal_strlit("ADB Tools");
    }
    let cs = chars_of(t);
    if starts_with_exec(&cs, &chars_of("About ")) {
        Some(cat("About ", "ADB Tools"))
    } else if starts_with_exec(&cs, &chars_of("Hide ")) && !starts_with_exec(&cs, &chars_of("Hide Others")) {
        Some(cat("Hide ", "ADB Tools"))
    } else if starts_with_exec(&cs, &chars_of("Quit ")) {
        Some(cat("Quit ", "ADB Tools"))
    } else {
        None
    }
}

/// Whether a submenu is the help menu, which gets the "download adb" entry.
pub fn is_help_menu(text: &str) -> (res: bool)
    ensures
        res == (text@ == "Help"@ || text@ == "帮助"@),
{
    str_is(text, "Help") || str_is(text, "帮助")
}

/// What an entry of the tray menu does.
#[derive(Debug, Clone, Copy, PartialEq, Eq)]
pub enum TrayAction {
    /// Show and focus every window.
    Show,
    /// Hide every window.
    Hide,
    /// Quit the application.
    Quit,
    /// Nothing.
    Ignore,
}

/// The action of the tray menu entry with the given id.
pub fn tray_action(id: &str) -> (res: TrayAction)
    ensures
        res == (if id@ == "tray_show"@ {
            TrayAction::Show
        } else if id@ == "tray_hide"@ {
            TrayAction::Hide
        } else if id@ == "tray_quit"@ {
            TrayAction::Quit
        } else {
            TrayAction::Ignore
        }),
{
    if str_is(id, "tray_show") {
        TrayAction::Show
    } else if str_is(id, "tray_hide") {
        TrayAction::Hide
    } else if str_is(id, "tray_quit") {
        TrayAction::Quit
    } else {
        TrayAction::Ignore
    }
}

} // verus!
