//! The tray icon: its menu, what each entry does, and how it shows the recording state.
use vstd::prelude::*;

verus! {

/// The id of the tray icon.
pub const TRAY_ID: &'static str = "main-tray";

/// Menu entry: show the window.
pub const MENU_SHOW: &'static str = "show";

/// Menu entry: start recording.
pub const MENU_START_RECORDING: &'static str = "start_recording";

/// Menu entry: stop recording.
pub const MENU_STOP_RECORDING: &'static str = "stop_recording";

/// Menu entry: quit.
pub const MENU_QUIT: &'static str = "quit";

/// The tooltip while not recording.
pub const TRAY_TOOLTIP_IDLE: &'static str = "Kiroku - 待機中";

/// The tooltip while recording.
pub const TRAY_TOOLTIP_RECORDING: &'static str = "Kiroku - 記録中";

/// One line of the tray menu: an entry with its id and label, or a separator.
#[derive(Debug)]
pub enum TrayMenuItem {
    Entry { id: &'static str, label: &'static str },
    Separator,
}

/// The tray menu, top to bottom.
pub fn tray_menu_items() -> (items: Vec<TrayMenuItem>)
    ensures
        items@.len() == 6,
        items@[0] matches TrayMenuItem::Entry { id, label } && id@ == MENU_SHOW@ && label@
            == "ウィンドウを表示"@,
        items@[1] is Separator,
        items@[2] matches TrayMenuItem::Entry { id, label } && id@ == MENU_START_RECORDING@
            && label@ == "記録開始"@,
        items@[3] matches TrayMenuItem::Entry { id, label } && id@ == MENU_STOP_RECORDING@
            && label@ == "記録停止"@,
        items@[4] is Separator,
        items@[5] matches TrayMenuItem::Entry { id, label } && id@ == MENU_QUIT@ && label@
            == "終了"@,
{
    let mut items: Vec<TrayMenuItem> = Vec::new();
    items.push(TrayMenuItem::Entry { id: MENU_SHOW, label: "ウィンドウを表示" });
    items.push(TrayMenuItem::Separator);
    items.push(TrayMenuItem::Entry { id: MENU_START_RECORDING, label: "記録開始" });
    items.push(TrayMenuItem::Entry { id: MENU_STOP_RECORDING, label: "記録停止" });
    items.push(TrayMenuItem::Separator);
    items.push(TrayMenuItem::Entry { id: MENU_QUIT, label: "終了" });
    items
}

/// What choosing a tray menu entry does.
#[derive(Debug, Clone, Copy, PartialEq, Eq, Structural)]
pub enum TrayCommand {
    ShowWindow,
    StartRecording,
    StopRecording,
    Quit,
    Ignore,
}

/// The command of the menu entry with the given id; an unknown id does nothing.
pub fn tray_menu_command(id: &str) -> (command: TrayCommand)
    ensures
        command == (if id@ == MENU_SHOW@ {
            TrayCommand::ShowWindow
        } else if id@ == MENU_START_RECORDING@ {
            TrayCommand::StartRecording
        } else if id@ == MENU_STOP_RECORDING@ {
            TrayCommand::StopRecording
        } else if id@ == MENU_QUIT@ {
            TrayCommand::Quit
        } else {
            TrayCommand::Ignore
        }),
{
    if crate::text::text_eq(id, MENU_SHOW) {
        TrayCommand::ShowWindow
    } else if crate::text::text_eq(id, MENU_START_RECORDING) {
        TrayCommand::StartRecording
    } else if crate::text::text_eq(id, MENU_STOP_RECORDING) {
        TrayCommand::StopRecording
    } else if crate::text::text_eq(id, MENU_QUIT) {
        TrayCommand::Quit
    } else {
        TrayCommand::Ignore
    }
}

/// The tooltip for the recording state.
pub fn tray_tooltip(is_recording: bool) -> (tooltip: &'static str)
    ensures
        tooltip@ == (if is_recording {
            TRAY_TOOLTIP_RECORDING@
        } else {
            TRAY_TOOLTIP_IDLE@
        }),
{
    if is_recording {
        TRAY_TOOLTIP_RECORDING
    } else {
        TRAY_TOOLTIP_IDLE
    }
}

/// A click on the tray icon shows the window when it is a double click, or the release of
/// the left button.
pub fn tray_click_shows_window(double_click: bool, left_button: bool, released: bool) -> (show: bool)
    ensures
        show == (double_click || (left_button && released)),
{
    double_click || (left_button && released)
}

} // verus!
