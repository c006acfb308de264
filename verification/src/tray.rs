//! The tray icon: its tooltip, the pause item's label, and what each menu
//! item does to the settings.
use vstd::prelude::*;

use crate::models::AppSettings;
use crate::state::AppData;

verus! {

/// The status word of the tooltip.
pub open spec fn status_text(paused: bool) -> Seq<char> {
    if paused {
        "已暫停"@
    } else {
        "啟用中"@
    }
}

/// The tooltip: the app's name, how many quotes there are, whether it is
/// paused, and how many were shown today.
pub open spec fn tooltip(paused: bool, quote_count: nat, today: nat) -> Seq<char> {
    "佳句隨機顯示器\n共 "@ + crate::text::decimal(quote_count) + " 則佳句 | "@ + status_text(paused)
        + "\n今日已顯示 "@ + crate::text::decimal(today) + " 次"@
}

/// Builds the tray tooltip for the current state.
pub fn tooltip_text(data: &AppData) -> (s: String)
    ensures
        s@ == tooltip(
            data.settings.paused,
            data.quotes.quotes@.len(),
            data.stats.today_displayed as nat,
        ),
{
    let mut s = String::from_str("佳句隨機顯示器\n共 ");
    let count = crate::text::decimal_string(data.quotes.quotes.len() as u128);
    s.append(count.as_str());
    s.append(" 則佳句 | ");
    if data.settings.paused {
        s.append("已暫停");
    } else {
        s.append("啟用中");
    }
    s.append("\n今日已顯示 ");
    let today = crate::text::decimal_string(data.stats.today_displayed as u128);
    s.append(today.as_str());
    s.append(" 次");
    s
}

/// The label of the pause item: resume while paused, pause otherwise.
pub fn pause_label(paused: bool) -> (s: String)
    ensures
        s@ == (if paused {
            "繼續"@
        } else {
            "暫停"@
        }),
{
    if paused {
        String::from_str("繼續")
    } else {
        String::from_str("暫停")
    }
}

/// What a tray menu item does.
#[derive(Debug, Clone, Copy, PartialEq, Eq)]
pub enum MenuCommand {
    Show,
    TogglePause,
    OpenMain,
    ToggleAutoStart,
    ToggleOnTop,
    ToggleWeight,
    ToggleDarkMode,
    Close,
    Ignore,
}

/// The command of the menu item with that id.
pub open spec fn command_of(id: Seq<char>) -> MenuCommand {
    if id == "show"@ {
        MenuCommand::Show
    } else if id == "pause"@ {
        MenuCommand::TogglePause
    } else if id == "edit"@ || id == "select"@ || id == "schedule"@ {
        MenuCommand::OpenMain
    } else if id == "autostart"@ {
        MenuCommand::ToggleAutoStart
    } else if id == "ontop"@ {
        MenuCommand::ToggleOnTop
    } else if id == "weight"@ {
        MenuCommand::ToggleWeight
    } else if id == "darkmode"@ {
        MenuCommand::ToggleDarkMode
    } else if id == "close"@ {
        MenuCommand::Close
    } else {
        MenuCommand::Ignore
    }
}

fn is_id(id: &String, lit: &str) -> (b: bool)
    ensures
        b == (id@ == lit@),
{
    let t = String::from_str(lit);
    id.eq(&t)
}

/// Maps a menu item id to its command.
pub fn menu_command(id: &str) -> (c: MenuCommand)
    ensures
        c == command_of(id@),
{
    let id = String::from_str(id);
    if is_id(&id, "show") {
        MenuCommand::Show
    } else if is_id(&id, "pause") {
        MenuCommand::TogglePause
    } else if is_id(&id, "edit") || is_id(&id, "select") || is_id(&id, "schedule") {
        MenuCommand::OpenMain
    } else if is_id(&id, "autostart") {
        MenuCommand::ToggleAutoStart
    } else if is_id(&id, "ontop") {
        MenuCommand::ToggleOnTop
    } else if is_id(&id, "weight") {
        MenuCommand::ToggleWeight
    } else if is_id(&id, "darkmode") {
        MenuCommand::ToggleDarkMode
    } else if is_id(&id, "close") {
        MenuCommand::Close
    } else {
        MenuCommand::Ignore
    }
}

/// The settings after a menu command: a toggle flips its flag, any other
/// command leaves them as they are.
pub open spec fn toggled(s: AppSettings, c: MenuCommand) -> AppSettings {
    match c {
        MenuCommand::TogglePause => AppSettings { paused: !s.paused, ..s },
        MenuCommand::ToggleAutoStart => AppSettings { auto_start: !s.auto_start, ..s },
        MenuCommand::ToggleOnTop => AppSettings { always_on_top: !s.always_on_top, ..s },
        MenuCommand::ToggleWeight => AppSettings { weight_mode: !s.weight_mode, ..s },
        MenuCommand::ToggleDarkMode => AppSettings { dark_mode: !s.dark_mode, ..s },
        _ => s,
    }
}

/// Applies a menu command to the settings.
pub fn apply_menu_command(settings: &mut AppSettings, c: MenuCommand)
    ensures
        *final(settings) == toggled(*old(settings), c),
{
    match c {
        MenuCommand::TogglePause => settings.paused = !settings.paused,
        MenuCommand::ToggleAutoStart => settings.auto_start = !settings.auto_start,
        MenuCommand::ToggleOnTop => settings.always_on_top = !settings.always_on_top,
        MenuCommand::ToggleWeight => settings.weight_mode = !settings.weight_mode,
        MenuCommand::ToggleDarkMode => settings.dark_mode = !settings.dark_mode,
        _ => {},
    }
}

} // verus!
